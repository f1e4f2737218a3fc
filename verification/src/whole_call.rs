//! Whole calls: what the steps of a connection add up to when one call runs
//! from its request to its end, no other caller comes in between and nobody
//! is connecting when it starts.
use crate::connection::{
    ConnectionView, SendAction, SendEvent, SendOutcome, SessionAction, SessionEvent,
};
use crate::params::QuicConnectionError;
use vstd::prelude::*;

verus! {

/// What the transport answers in the course of one call.
pub struct Answers {
    /// What establishing a session brings.
    pub connect: Option<u64>,
    /// How opening a stream ends.
    pub open: Result<(), QuicConnectionError>,
    /// How writing the payload ends.
    pub write: Result<(), QuicConnectionError>,
}

/// How a call for a usable session ended.
pub struct SessionCall {
    pub connection: ConnectionView,
    /// The session handed to the caller.
    pub session: Option<u64>,
    /// How often the transport was asked to establish a session.
    pub connects: nat,
}

/// How a call that sends a payload ended.
pub struct SendCall {
    pub connection: ConnectionView,
    pub outcome: SendOutcome,
    /// How often the transport was asked to establish a session.
    pub connects: nat,
    /// How often it was asked to open a stream.
    pub opens: nat,
    /// How often it was asked to write the payload.
    pub writes: nat,
}

impl ConnectionView {
    /// Follows the actions of a call for a session from `event` on, for at
    /// most `steps` steps. A call that is told to wait does not come to its
    /// end by itself.
    pub open spec fn session_steps(
        self,
        event: SessionEvent,
        connect: Option<u64>,
        steps: nat,
    ) -> Option<SessionCall>
        decreases steps,
    {
        if steps == 0 {
            None
        } else {
            let (next, action) = self.get_connection(event);
            match action {
                SessionAction::Return(session) => Some(
                    SessionCall { connection: next, session, connects: 0 },
                ),
                SessionAction::Connect(_) => match next.session_steps(
                    SessionEvent::Connected { session: connect },
                    connect,
                    (steps - 1) as nat,
                ) {
                    Some(call) => Some(SessionCall { connects: call.connects + 1, ..call }),
                    None => None,
                },
                SessionAction::Wait { observed } => None,
                SessionAction::Reconnect(_) => match next.session_steps(
                    SessionEvent::Reconnected { session: connect },
                    connect,
                    (steps - 1) as nat,
                ) {
                    Some(call) => Some(SessionCall { connects: call.connects + 1, ..call }),
                    None => None,
                },
            }
        }
    }

    /// One call for a usable session, where a connect brings `connect`.
    pub open spec fn session_call(self, connect: Option<u64>) -> SessionCall {
        self.session_steps(SessionEvent::Requested, connect, 2).unwrap()
    }

    /// Follows the actions of a call that sends a payload from `event` on,
    /// for at most `steps` steps.
    pub open spec fn send_steps(self, event: SendEvent, answers: Answers, steps: nat) -> Option<
        SendCall,
    >
        decreases steps,
    {
        if steps == 0 {
            None
        } else {
            let (next, action) = self.send_transaction(event);
            match action {
                SendAction::Finish(outcome) => Some(
                    SendCall { connection: next, outcome, connects: 0, opens: 0, writes: 0 },
                ),
                SendAction::GetConnection => {
                    let found = next.session_call(answers.connect);
                    match found.connection.send_steps(
                        SendEvent::Session { obtained: found.session },
                        answers,
                        (steps - 1) as nat,
                    ) {
                        Some(call) => Some(
                            SendCall { connects: call.connects + found.connects, ..call },
                        ),
                        None => None,
                    }
                },
                SendAction::OpenUnistream { session, timeout } => match next.send_steps(
                    SendEvent::StreamOpened { session, result: answers.open },
                    answers,
                    (steps - 1) as nat,
                ) {
                    Some(call) => Some(SendCall { opens: call.opens + 1, ..call }),
                    None => None,
                },
                SendAction::WriteAll { session, identity, params } => match next.send_steps(
                    SendEvent::Written { session, result: answers.write },
                    answers,
                    (steps - 1) as nat,
                ) {
                    Some(call) => Some(SendCall { writes: call.writes + 1, ..call }),
                    None => None,
                },
            }
        }
    }

    /// One call that sends a payload, with the shutdown flag as it is read at
    /// the start.
    pub open spec fn send_call(self, exit_signal: bool, answers: Answers) -> SendCall {
        self.send_steps(SendEvent::Requested { exit_signal }, answers, 4).unwrap()
    }

    /// A session is installed that is not the suspected one.
    pub open spec fn is_healthy(self) -> bool {
        self.session is Some && !self.is_stale()
    }
}

/// A call for a session ends within two steps. It hands out the installed
/// session as it is where that one is healthy; otherwise it connects once and
/// hands out what the connect brought. A first connect installs whatever it
/// brought; a reconnect that brought nothing leaves the suspected session in
/// place.
pub proof fn lemma_session_call(connection: ConnectionView, connect: Option<u64>)
    requires
        !connection.connecting,
    ensures
        connection.session_steps(SessionEvent::Requested, connect, 2) is Some,
        !connection.session_call(connect).connection.connecting,
        connection.is_healthy() ==> connection.session_call(connect) == (SessionCall {
            connection,
            session: connection.session,
            connects: 0,
        }),
        connection.session is None ==> connection.session_call(connect) == (SessionCall {
            connection: ConnectionView {
                session: connect,
                has_connected_once: true,
                ..connection
            },
            session: connect,
            connects: 1,
        }),
        connection.is_stale() ==> connection.session_call(connect) == (SessionCall {
            connection: if connect is Some {
                connection.with_session(connect)
            } else {
                connection
            },
            session: connect,
            connects: 1,
        }),
{
    reveal_with_fuel(ConnectionView::session_steps, 3);
}

impl ConnectionView {
    /// How a call ends once the write on `session` has come back.
    pub open spec fn send_call_after_write(
        self,
        session: u64,
        write: Result<(), QuicConnectionError>,
    ) -> SendCall {
        match write {
            Ok(_) => SendCall {
                connection: self,
                outcome: SendOutcome::Delivered,
                connects: 0,
                opens: 0,
                writes: 0,
            },
            Err(error) => SendCall {
                connection: self.after_failure(session, error).0,
                outcome: self.after_failure(session, error).1->Finish_0,
                connects: 0,
                opens: 0,
                writes: 0,
            },
        }
    }

    /// How a call ends once the open on `session` has come back.
    pub open spec fn send_call_after_open(self, session: u64, answers: Answers) -> SendCall {
        match answers.open {
            Ok(_) => SendCall { writes: 1, ..self.send_call_after_write(session, answers.write) },
            Err(error) => SendCall {
                connection: self.after_failure(session, error).0,
                outcome: self.after_failure(session, error).1->Finish_0,
                connects: 0,
                opens: 0,
                writes: 0,
            },
        }
    }

    /// How a call ends once the call for a session has come back.
    pub open spec fn send_call_after_session(
        self,
        obtained: Option<u64>,
        answers: Answers,
    ) -> SendCall {
        match obtained {
            None => SendCall {
                connection: self,
                outcome: SendOutcome::NoSession,
                connects: 0,
                opens: 0,
                writes: 0,
            },
            Some(session) => SendCall { opens: 1, ..self.send_call_after_open(session, answers) },
        }
    }
}

proof fn lemma_steps_after_write(
    connection: ConnectionView,
    session: u64,
    answers: Answers,
    steps: nat,
)
    requires
        steps >= 1,
    ensures
        connection.send_steps(
            SendEvent::Written { session, result: answers.write },
            answers,
            steps,
        ) == Some(connection.send_call_after_write(session, answers.write)),
{
}

proof fn lemma_steps_after_open(
    connection: ConnectionView,
    session: u64,
    answers: Answers,
    steps: nat,
)
    requires
        steps >= 2,
    ensures
        connection.send_steps(
            SendEvent::StreamOpened { session, result: answers.open },
            answers,
            steps,
        ) == Some(connection.send_call_after_open(session, answers)),
{
    lemma_steps_after_write(connection, session, answers, (steps - 1) as nat);
}

proof fn lemma_steps_after_session(
    connection: ConnectionView,
    obtained: Option<u64>,
    answers: Answers,
    steps: nat,
)
    requires
        steps >= 3,
    ensures
        connection.send_steps(SendEvent::Session { obtained }, answers, steps) == Some(
            connection.send_call_after_session(obtained, answers),
        ),
{
    if let Some(session) = obtained {
        lemma_steps_after_open(connection, session, answers, (steps - 1) as nat);
    }
}

/// A call that sends a payload ends within four steps, and it ends in
/// exactly one of these ways:
/// with nothing tried, where the budget is zero or the shutdown flag is set;
/// with no session, where the call for one brought none;
/// with the failure of the open, or else of the write, classified;
/// with the payload delivered, where both succeeded.
/// The connection after it is the one that the call for a session left,
/// changed by the failure alone.
pub proof fn lemma_send_call(connection: ConnectionView, exit_signal: bool, answers: Answers)
    requires
        !connection.connecting,
    ensures
        connection.send_steps(SendEvent::Requested { exit_signal }, answers, 4) is Some,
        ({
            let call = connection.send_call(exit_signal, answers);
            let found = connection.session_call(answers.connect);
            if connection.connection_params.connection_retry_count == 0 {
                call == (SendCall {
                    connection,
                    outcome: SendOutcome::NoBudget,
                    connects: 0,
                    opens: 0,
                    writes: 0,
                })
            } else if exit_signal {
                call == (SendCall {
                    connection,
                    outcome: SendOutcome::Cancelled,
                    connects: 0,
                    opens: 0,
                    writes: 0,
                })
            } else {
                call == (SendCall {
                    connects: found.connects,
                    ..found.connection.send_call_after_session(found.session, answers)
                })
            }
        }),
{
    let found = connection.session_call(answers.connect);
    lemma_steps_after_session(found.connection, found.session, answers, 3);
}

/// A call makes one attempt at most, whatever the budget: it asks the
/// transport for at most one session, one stream and one write, and for none
/// of them once the shutdown flag is set.
pub proof fn lemma_send_call_attempts_once(
    connection: ConnectionView,
    exit_signal: bool,
    answers: Answers,
)
    requires
        !connection.connecting,
    ensures
        connection.send_call(exit_signal, answers).connects <= 1,
        !connection.send_call(exit_signal, answers).connection.connecting,
        connection.send_call(exit_signal, answers).writes <= connection.send_call(
            exit_signal,
            answers,
        ).opens <= 1,
        exit_signal ==> connection.send_call(exit_signal, answers).connects
            + connection.send_call(exit_signal, answers).opens + connection.send_call(
            exit_signal,
            answers,
        ).writes == 0,
        connection.send_call(exit_signal, answers).opens
            <= connection.connection_params.connection_retry_count,
{
    lemma_send_call(connection, exit_signal, answers);
    lemma_session_call(connection, answers.connect);
}

/// A call counts a timeout exactly if it ended in one, and a call ends in a
/// timeout exactly if the one attempt that it made ran into a deadline.
pub proof fn lemma_send_call_counts_its_timeout(
    connection: ConnectionView,
    exit_signal: bool,
    answers: Answers,
)
    requires
        !connection.connecting,
        connection.timeout_count < u64::MAX,
    ensures
        ({
            let call = connection.send_call(exit_signal, answers);
            &&& call.connection.timeout_count == connection.timeout_count + if call.outcome
                == SendOutcome::TimedOut {
                1int
            } else {
                0int
            }
            &&& call.outcome == SendOutcome::TimedOut <==> call.opens == 1 && (answers.open
                == Err::<(), QuicConnectionError>(QuicConnectionError::TimeOut) || (
                answers.open is Ok && answers.write == Err::<(), QuicConnectionError>(
                    QuicConnectionError::TimeOut,
                )))
        }),
{
    lemma_send_call(connection, exit_signal, answers);
    lemma_session_call(connection, answers.connect);
}

/// A retryable failure costs one reconnect, and the payload goes out with
/// the call after it.
///
/// The call that sees the failure on a healthy session marks that session
/// and ends without a connect. In the next call the transport is asked for
/// one session, the new one is installed, and with a transport that now
/// succeeds the payload is delivered. The call after that finds the new
/// session healthy and connects no more. No timeout is counted on the way.
pub proof fn lemma_retry_then_success(
    connection: ConnectionView,
    failed_at_write: bool,
    fresh: u64,
)
    requires
        connection.is_healthy(),
        !connection.connecting,
        connection.connection_params.connection_retry_count > 0,
        Some(fresh) != connection.session,
    ensures
        ({
            let retry = Err::<(), QuicConnectionError>(
                QuicConnectionError::ConnectionError { retry: true },
            );
            let failing = if failed_at_write {
                Answers { connect: Some(fresh), open: Ok(()), write: retry }
            } else {
                Answers { connect: Some(fresh), open: retry, write: Ok(()) }
            };
            let working = Answers { connect: Some(fresh), open: Ok(()), write: Ok(()) };
            let first = connection.send_call(false, failing);
            let second = first.connection.send_call(false, working);
            let third = second.connection.send_call(false, working);
            &&& first.outcome == SendOutcome::SessionSuspected
            &&& first.connects == 0
            &&& first.connection == connection.with_suspected(connection.session->Some_0)
            &&& second.outcome == SendOutcome::Delivered
            &&& second.connects == 1
            &&& second.connection == first.connection.with_session(Some(fresh))
            &&& third.outcome == SendOutcome::Delivered
            &&& third.connects == 0
            &&& third.connection.timeout_count == connection.timeout_count
        }),
{
    let retry = Err::<(), QuicConnectionError>(
        QuicConnectionError::ConnectionError { retry: true },
    );
    let failing = if failed_at_write {
        Answers { connect: Some(fresh), open: Ok(()), write: retry }
    } else {
        Answers { connect: Some(fresh), open: retry, write: Ok(()) }
    };
    let working = Answers { connect: Some(fresh), open: Ok(()), write: Ok(()) };
    lemma_send_call(connection, false, failing);
    lemma_session_call(connection, Some(fresh));
    let first = connection.send_call(false, failing);
    lemma_send_call(first.connection, false, working);
    lemma_session_call(first.connection, Some(fresh));
    let second = first.connection.send_call(false, working);
    lemma_send_call(second.connection, false, working);
    lemma_session_call(second.connection, Some(fresh));
}

/// A transport that runs into its deadline every time: each call makes its
/// one attempt, counts one timeout and delivers nothing, and the session
/// that was healthy before stays installed and healthy, so that no reconnect
/// follows.
pub proof fn lemma_timeout_leaves_session(connection: ConnectionView, answers: Answers)
    requires
        connection.is_healthy(),
        !connection.connecting,
        connection.connection_params.connection_retry_count > 0,
        connection.timeout_count < u64::MAX,
        answers.open == Err::<(), QuicConnectionError>(QuicConnectionError::TimeOut),
    ensures
        ({
            let call = connection.send_call(false, answers);
            &&& call.outcome == SendOutcome::TimedOut
            &&& call.connects == 0 && call.opens == 1 && call.writes == 0
            &&& call.connection == connection.with_timeout()
            &&& call.connection.timeout_count == connection.timeout_count + 1
            &&& call.connection.is_healthy()
        }),
{
    lemma_send_call(connection, false, answers);
    lemma_session_call(connection, answers.connect);
}

} // verus!
