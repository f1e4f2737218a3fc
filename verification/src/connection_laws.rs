//! What holds of a connection over any course of events.
use crate::connection::{
    ConnectionView, SendAction, SendEvent, SendOutcome, SessionAction, SessionEvent,
};
use crate::params::{PeerIdentity, QuicConnectionError, QuicConnectionParameters};
use vstd::prelude::*;

verus! {

/// Anything that can happen to a connection.
pub enum ConnectionOp {
    /// A step of a call for a usable session.
    Session(SessionEvent),
    /// A step of a call that sends a payload.
    Send(SendEvent),
    /// The timeout counter is reset.
    ResetTimeouts,
}

impl ConnectionOp {
    /// A stream operation ran into its deadline.
    pub open spec fn is_timeout(self) -> bool {
        match self {
            ConnectionOp::Send(SendEvent::StreamOpened { session, result }) => result == Err::<
                (),
                QuicConnectionError,
            >(QuicConnectionError::TimeOut),
            ConnectionOp::Send(SendEvent::Written { session, result }) => result == Err::<
                (),
                QuicConnectionError,
            >(QuicConnectionError::TimeOut),
            _ => false,
        }
    }

    /// A first connect came back.
    pub open spec fn is_first_connect(self) -> bool {
        self matches ConnectionOp::Session(SessionEvent::Connected { session })
    }

    /// A stream operation failed and the transport asked for a retry.
    pub open spec fn is_retryable_failure_on(self, id: u64) -> bool {
        let failure = Err::<(), QuicConnectionError>(
            QuicConnectionError::ConnectionError { retry: true },
        );
        self == ConnectionOp::Send(SendEvent::StreamOpened { session: id, result: failure })
            || self == ConnectionOp::Send(SendEvent::Written { session: id, result: failure })
    }
}

/// How many of the operations are timeouts.
pub open spec fn timeouts_in(ops: Seq<ConnectionOp>) -> nat
    decreases ops.len(),
{
    if ops.len() == 0 {
        0
    } else {
        timeouts_in(ops.drop_last()) + if ops.last().is_timeout() {
            1nat
        } else {
            0nat
        }
    }
}

impl ConnectionView {
    /// The connection after one operation.
    pub open spec fn apply(self, op: ConnectionOp) -> ConnectionView {
        match op {
            ConnectionOp::Session(event) => self.get_connection(event).0,
            ConnectionOp::Send(event) => self.send_transaction(event).0,
            ConnectionOp::ResetTimeouts => ConnectionView { timeout_count: 0, ..self },
        }
    }

    /// The connection after the operations, first to last.
    pub open spec fn apply_all(self, ops: Seq<ConnectionOp>) -> ConnectionView
        decreases ops.len(),
    {
        if ops.len() == 0 {
            self
        } else {
            self.apply_all(ops.drop_last()).apply(ops.last())
        }
    }
}

/// A retryable connection error marks the session on which it was seen, and
/// one reconnect replaces that session for everybody.
///
/// Once the installed session `id` is marked, the first request for a session
/// is told to reconnect, and every request that comes while it does is told
/// to wait. Once it has installed a session with another identity, every
/// caller who waited on account of `id`, and every later request, is handed
/// the new session without another connect.
pub proof fn lemma_one_reconnect_per_stale_session(
    connection: ConnectionView,
    id: u64,
    failure: ConnectionOp,
    fresh: u64,
)
    requires
        connection.session == Some(id),
        !connection.connecting,
        failure.is_retryable_failure_on(id),
        fresh != id,
    ensures
        ({
            let marked = connection.apply(failure);
            let busy = marked.with_connecting(true);
            let replaced = marked.with_session(Some(fresh));
            &&& marked == connection.with_suspected(id)
            &&& marked.get_connection(SessionEvent::Requested) == (
                busy,
                SessionAction::Reconnect(marked.connect_request()),
            )
            &&& busy.get_connection(SessionEvent::Requested) == (
                busy,
                SessionAction::Wait { observed: Some(id) },
            )
            &&& busy.get_connection(SessionEvent::Resumed { observed: Some(id) }) == (
                busy,
                SessionAction::Wait { observed: Some(id) },
            )
            &&& busy.get_connection(SessionEvent::Reconnected { session: Some(fresh) }) == (
                replaced,
                SessionAction::Return(Some(fresh)),
            )
            &&& replaced.get_connection(SessionEvent::Resumed { observed: Some(id) }) == (
                replaced,
                SessionAction::Return(Some(fresh)),
            )
            &&& replaced.get_connection(SessionEvent::Requested) == (
                replaced,
                SessionAction::Return(Some(fresh)),
            )
        }),
{
}

/// A reconnect that brings no session, and a caller who gives up, leave the
/// suspected session installed and make way: the next caller to ask
/// reconnects.
pub proof fn lemma_failed_reconnect_keeps_session(connection: ConnectionView, id: u64)
    requires
        connection.session == Some(id),
        connection.last_stable_id == id,
        connection.connecting,
    ensures
        connection.get_connection(SessionEvent::Reconnected { session: None }) == (
            connection.with_connecting(false),
            SessionAction::Return(None),
        ),
        connection.get_connection(SessionEvent::Abandoned) == (
            connection.with_connecting(false),
            SessionAction::Return(None),
        ),
        connection.with_connecting(false).get_connection(
            SessionEvent::Resumed { observed: Some(id) },
        ) == (connection, SessionAction::Reconnect(connection.connect_request())),
{
}

/// A healthy session is handed out as it is, whether or not somebody is
/// connecting, and the connection stays as it was. A call for a session
/// never touches the suspicion, the timeout counter or the tuning.
pub proof fn lemma_healthy_session_is_handed_out(connection: ConnectionView, event: SessionEvent)
    ensures
        connection.session is Some && !connection.is_stale() ==> connection.get_connection(
            SessionEvent::Requested,
        ) == (connection, SessionAction::Return(connection.session)),
        connection.get_connection(event).0.last_stable_id == connection.last_stable_id,
        connection.get_connection(event).0.timeout_count == connection.timeout_count,
        connection.get_connection(event).0.connection_params == connection.connection_params,
        connection.get_connection(event).0.identity == connection.identity,
        connection.get_connection(event).0.endpoint == connection.endpoint,
{
}

/// A caller is asked to connect or reconnect only while nobody else is, and
/// from then on somebody is, until that caller reports back.
pub proof fn lemma_connecting_is_exclusive(connection: ConnectionView, event: SessionEvent)
    ensures
        ({
            let (next, action) = connection.get_connection(event);
            &&& action is Connect || action is Reconnect ==> !connection.connecting
                && next.connecting
            &&& action is Wait ==> connection.connecting && next == connection
            &&& event is Connected || event is Reconnected || event is Abandoned
                ==> !next.connecting && action is Return
            &&& (event is Requested || event is Resumed) && action is Return ==> next
                == connection
        }),
{
}

/// One operation changes the timeout counter in one of three ways: a timeout
/// adds one, a reset sets it to zero, anything else leaves it alone. So a
/// payload that was delivered and a connection error, retryable or not, never
/// change it.
pub proof fn lemma_timeout_counter_step(connection: ConnectionView, op: ConnectionOp)
    ensures
        op.is_timeout() ==> connection.apply(op).timeout_count
            == connection.with_timeout().timeout_count,
        op.is_timeout() && connection.timeout_count < u64::MAX ==> connection.apply(
            op,
        ).timeout_count == connection.timeout_count + 1,
        op is ResetTimeouts ==> connection.apply(op).timeout_count == 0,
        !op.is_timeout() && !(op is ResetTimeouts) ==> connection.apply(op).timeout_count
            == connection.timeout_count,
{
}

/// Without a reset, and as long as the counter stays in its range, it counts
/// the timeouts exactly.
pub proof fn lemma_timeout_counter_counts(connection: ConnectionView, ops: Seq<ConnectionOp>)
    requires
        forall|i: int| 0 <= i < ops.len() ==> !(#[trigger] ops[i] is ResetTimeouts),
        connection.timeout_count + timeouts_in(ops) <= u64::MAX,
    ensures
        connection.apply_all(ops).timeout_count == connection.timeout_count + timeouts_in(ops),
    decreases ops.len(),
{
    if ops.len() > 0 {
        let earlier = ops.drop_last();
        assert forall|i: int| 0 <= i < earlier.len() implies !(#[trigger] earlier[i]
            is ResetTimeouts) by {
            assert(earlier[i] == ops[i]);
        }
        lemma_timeout_counter_counts(connection, earlier);
        lemma_timeout_counter_step(connection.apply_all(earlier), ops.last());
        assert(!(ops[ops.len() - 1] is ResetTimeouts));
    }
}

/// Only a reset takes the counter back to zero: where it was above zero and
/// is zero after operations that did not overflow it, one of them was a reset.
pub proof fn lemma_only_reset_clears_timeouts(connection: ConnectionView, ops: Seq<ConnectionOp>)
    requires
        connection.timeout_count > 0,
        connection.timeout_count + timeouts_in(ops) <= u64::MAX,
        connection.apply_all(ops).timeout_count == 0,
    ensures
        exists|i: int| 0 <= i < ops.len() && #[trigger] ops[i] is ResetTimeouts,
{
    if forall|i: int| 0 <= i < ops.len() ==> !(#[trigger] ops[i] is ResetTimeouts) {
        lemma_timeout_counter_counts(connection, ops);
    }
}

/// Once the shutdown flag is set, a send starts nothing: the call ends at its
/// first step, with no session asked for, no stream opened and nothing
/// written, and the connection is as it was.
pub proof fn lemma_exit_signal_stops_send(connection: ConnectionView)
    ensures
        connection.send_transaction(SendEvent::Requested { exit_signal: true }).0 == connection,
        connection.send_transaction(SendEvent::Requested { exit_signal: true }).1
            == SendAction::Finish(
            if connection.connection_params.connection_retry_count == 0 {
                SendOutcome::NoBudget
            } else {
                SendOutcome::Cancelled
            },
        ),
{
}

/// A send asks for a session only at its first step, and only with a budget
/// above zero and the shutdown flag unset.
pub proof fn lemma_send_asks_for_session_once(connection: ConnectionView, event: SendEvent)
    ensures
        connection.send_transaction(event).1 == SendAction::GetConnection <==> event
            == (SendEvent::Requested { exit_signal: false })
            && connection.connection_params.connection_retry_count > 0,
{
}

/// A connection has connected once exactly if it had before, or a first
/// connect has come back since, with a session or without. So the flag is
/// unset on a new connection until then, and set for good afterwards,
/// whatever reconnects and failures follow.
pub proof fn lemma_connected_once(connection: ConnectionView, ops: Seq<ConnectionOp>)
    ensures
        connection.apply_all(ops).has_connected_once <==> connection.has_connected_once || exists|
            i: int,
        |
            0 <= i < ops.len() && (#[trigger] ops[i]).is_first_connect(),
    decreases ops.len(),
{
    if ops.len() > 0 {
        let earlier = ops.drop_last();
        let before = connection.apply_all(earlier);
        lemma_connected_once(connection, earlier);
        assert(before.apply(ops.last()).has_connected_once <==> before.has_connected_once
            || ops.last().is_first_connect());
        if connection.apply_all(ops).has_connected_once && !connection.has_connected_once {
            if ops.last().is_first_connect() {
                assert(ops[ops.len() - 1].is_first_connect());
            } else {
                let i = choose|i: int|
                    0 <= i < earlier.len() && (#[trigger] earlier[i]).is_first_connect();
                assert(ops[i] == earlier[i]);
            }
        }
        if exists|i: int| 0 <= i < ops.len() && (#[trigger] ops[i]).is_first_connect() {
            let i = choose|i: int| 0 <= i < ops.len() && (#[trigger] ops[i]).is_first_connect();
            if i < earlier.len() {
                assert(earlier[i] == ops[i]);
            }
        }
    }
}

/// A new connection has not connected, holds no session and has counted no
/// timeout.
pub proof fn lemma_fresh_connection(
    identity: PeerIdentity,
    endpoint: usize,
    connection_params: QuicConnectionParameters,
)
    ensures
        !ConnectionView::fresh(identity, endpoint, connection_params).has_connected_once,
        ConnectionView::fresh(identity, endpoint, connection_params).session is None,
        ConnectionView::fresh(identity, endpoint, connection_params).timeout_count == 0,
        ConnectionView::fresh(identity, endpoint, connection_params).get_connection(
            SessionEvent::Requested,
        ).1 is Connect,
{
}

} // verus!
