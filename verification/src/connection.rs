//! One logical channel to one remote peer: which session is installed, which
//! one is suspected to be broken, and what a caller has to do next.
//!
//! A session is known here by its stable identity alone. The driver keeps the
//! live handles, performs the transport work that an action names, and reports
//! its result as the next event.
//!
//! Establishing a session is exclusive: while one caller connects, every
//! other caller who would have to connect is told to wait. Callers who find a
//! healthy session never wait.
use crate::params::{PeerIdentity, QuicConnectionError, QuicConnectionParameters};
use std::time::Duration;
use vstd::prelude::*;

verus! {

/// What the driver hands to the transport when it establishes a session.
#[derive(Clone, Copy, Debug, PartialEq, Eq)]
pub struct ConnectRequest {
    /// The peer to connect to.
    pub identity: PeerIdentity,
    /// The local endpoint that this connection was given when it was built.
    pub endpoint: usize,
    /// Deadline of one attempt.
    pub connection_timeout: Duration,
    /// Attempts that the transport may make.
    pub connection_retry_count: usize,
}

/// What happened on behalf of one call that asks for a usable session.
#[derive(Clone, Copy, Debug, PartialEq, Eq)]
pub enum SessionEvent {
    /// A caller asks for a usable session.
    Requested,
    /// The answer to [`SessionAction::Wait`], with the observation it named:
    /// another call has come to its end since.
    Resumed { observed: Option<u64> },
    /// The answer to [`SessionAction::Connect`]: the new session, or none.
    Connected { session: Option<u64> },
    /// The answer to [`SessionAction::Reconnect`]: the new session, or none.
    Reconnected { session: Option<u64> },
    /// The caller who was asked to connect or reconnect gave up before the
    /// transport answered.
    Abandoned,
}

/// What the driver does next for a call that asks for a usable session.
#[derive(Clone, Copy, Debug, PartialEq, Eq)]
pub enum SessionAction {
    /// The call is over with this session, or with none.
    Return(Option<u64>),
    /// Another caller is establishing a session. Wait until a call that was
    /// asked to connect or reconnect has reported back, then report `Resumed`
    /// with the same observation.
    Wait { observed: Option<u64> },
    /// Establish the first session and report `Connected`, or `Abandoned`.
    Connect(ConnectRequest),
    /// Establish a session in place of the suspected one and report
    /// `Reconnected`, or `Abandoned`.
    Reconnect(ConnectRequest),
}

/// What happened on behalf of one call that sends a payload.
#[derive(Clone, Copy, Debug, PartialEq, Eq)]
pub enum SendEvent {
    /// A caller wants a payload sent; `exit_signal` is the shutdown flag as
    /// read at this moment.
    Requested { exit_signal: bool },
    /// The answer to [`SendAction::GetConnection`].
    Session { obtained: Option<u64> },
    /// The answer to [`SendAction::OpenUnistream`] on that session.
    StreamOpened { session: u64, result: Result<(), QuicConnectionError> },
    /// The answer to [`SendAction::WriteAll`] on that session.
    Written { session: u64, result: Result<(), QuicConnectionError> },
}

/// How a call that sends a payload ended.
#[derive(Clone, Copy, Debug, PartialEq, Eq)]
pub enum SendOutcome {
    /// The retry budget is zero: nothing was tried.
    NoBudget,
    /// The shutdown flag was set: nothing was tried.
    Cancelled,
    /// No session could be had.
    NoSession,
    /// The payload was written in full.
    Delivered,
    /// The session failed and is now marked as suspected, so that the next
    /// call for a session replaces it.
    SessionSuspected,
    /// The session failed and the transport advised against a retry.
    ConnectionFailed,
    /// A deadline passed; the timeout was counted.
    TimedOut,
}

/// What the driver does next for a call that sends a payload.
#[derive(Clone, Copy, Debug, PartialEq, Eq)]
pub enum SendAction {
    /// The call is over.
    Finish(SendOutcome),
    /// Run a call for a usable session to its end and report `Session`.
    GetConnection,
    /// Open an outbound stream on the session within the deadline and report
    /// `StreamOpened`.
    OpenUnistream { session: u64, timeout: Duration },
    /// Write the payload to the opened stream and report `Written`.
    WriteAll { session: u64, identity: PeerIdentity, params: QuicConnectionParameters },
}

/// The state of a connection as the contracts see it.
pub struct ConnectionView {
    /// Stable identity of the installed session, if one is installed.
    pub session: Option<u64>,
    /// Stable identity of the session last found broken.
    pub last_stable_id: u64,
    /// The local endpoint given at construction.
    pub endpoint: usize,
    /// The remote peer.
    pub identity: PeerIdentity,
    /// The tuning given at construction.
    pub connection_params: QuicConnectionParameters,
    /// Timeouts observed since the last reset.
    pub timeout_count: u64,
    /// A first connect has come back, with a session or without.
    pub has_connected_once: bool,
    /// A caller has been asked to establish a session and has not reported
    /// back.
    pub connecting: bool,
}

impl ConnectionView {
    /// The state of a connection that has done nothing yet.
    pub open spec fn fresh(
        identity: PeerIdentity,
        endpoint: usize,
        connection_params: QuicConnectionParameters,
    ) -> ConnectionView {
        ConnectionView {
            session: None,
            last_stable_id: 0,
            endpoint,
            identity,
            connection_params,
            timeout_count: 0,
            has_connected_once: false,
            connecting: false,
        }
    }

    /// What the transport is handed to establish a session.
    pub open spec fn connect_request(self) -> ConnectRequest {
        ConnectRequest {
            identity: self.identity,
            endpoint: self.endpoint,
            connection_timeout: self.connection_params.connection_timeout,
            connection_retry_count: self.connection_params.connection_retry_count,
        }
    }

    /// The installed session is the one marked as suspected.
    pub open spec fn is_stale(self) -> bool {
        self.session == Some(self.last_stable_id)
    }

    /// The connection with this session installed, or with none.
    pub open spec fn with_session(self, session: Option<u64>) -> ConnectionView {
        ConnectionView { session, ..self }
    }

    /// The connection with the session `id` marked as suspected.
    pub open spec fn with_suspected(self, id: u64) -> ConnectionView {
        ConnectionView { last_stable_id: id, ..self }
    }

    /// One more timeout; the counter wraps at the top of its range.
    pub open spec fn with_timeout(self) -> ConnectionView {
        ConnectionView {
            timeout_count: if self.timeout_count == u64::MAX {
                0
            } else {
                (self.timeout_count + 1) as u64
            },
            ..self
        }
    }

    /// The connection with a caller establishing a session, or with none.
    pub open spec fn with_connecting(self, connecting: bool) -> ConnectionView {
        ConnectionView { connecting, ..self }
    }

    /// A caller who observed `observed`, no session or a suspected one, asks
    /// to establish a session.
    ///
    /// While another caller is at it, this one waits. A caller who observed
    /// no session connects. A caller who observed a suspected session and
    /// finds another one installed takes that one as the replacement;
    /// otherwise it reconnects.
    pub open spec fn enter(self, observed: Option<u64>) -> (ConnectionView, SessionAction) {
        if self.connecting {
            (self, SessionAction::Wait { observed })
        } else {
            match observed {
                None => (
                    self.with_connecting(true),
                    SessionAction::Connect(self.connect_request()),
                ),
                Some(suspected) => match self.session {
                    Some(id) if id != suspected => (self, SessionAction::Return(Some(id))),
                    _ => (
                        self.with_connecting(true),
                        SessionAction::Reconnect(self.connect_request()),
                    ),
                },
            }
        }
    }

    /// One step of a call for a usable session.
    ///
    /// A request is answered at once with the installed session unless there
    /// is none, or it is the suspected one; then the caller asks to establish
    /// one. A first connect installs whatever it brought and marks the
    /// connection as connected once. A reconnect installs the session that it
    /// brought, and leaves the installed one in place where it brought none.
    /// Each of them, and a caller who gives up, makes way for the next caller.
    pub open spec fn get_connection(self, event: SessionEvent) -> (ConnectionView, SessionAction) {
        match event {
            SessionEvent::Requested => match self.session {
                Some(id) if id != self.last_stable_id => (self, SessionAction::Return(Some(id))),
                observed => self.enter(observed),
            },
            SessionEvent::Resumed { observed } => self.enter(observed),
            SessionEvent::Connected { session } => (
                ConnectionView { session, has_connected_once: true, connecting: false, ..self },
                SessionAction::Return(session),
            ),
            SessionEvent::Reconnected { session } => match session {
                Some(id) => (
                    ConnectionView { session: Some(id), connecting: false, ..self },
                    SessionAction::Return(Some(id)),
                ),
                None => (self.with_connecting(false), SessionAction::Return(None)),
            },
            SessionEvent::Abandoned => (self.with_connecting(false), SessionAction::Return(None)),
        }
    }

    /// What a failed stream operation on `session` does to the connection.
    pub open spec fn after_failure(self, session: u64, error: QuicConnectionError) -> (
        ConnectionView,
        SendAction,
    ) {
        match error {
            QuicConnectionError::ConnectionError { retry } => if retry {
                (self.with_suspected(session), SendAction::Finish(SendOutcome::SessionSuspected))
            } else {
                (self, SendAction::Finish(SendOutcome::ConnectionFailed))
            },
            QuicConnectionError::TimeOut => (
                self.with_timeout(),
                SendAction::Finish(SendOutcome::TimedOut),
            ),
        }
    }

    /// One step of a call that sends a payload.
    ///
    /// With a budget above zero and no shutdown, a call makes one attempt:
    /// get a session, open a stream, write. The first definitive result ends
    /// the call.
    pub open spec fn send_transaction(self, event: SendEvent) -> (ConnectionView, SendAction) {
        match event {
            SendEvent::Requested { exit_signal } => {
                if self.connection_params.connection_retry_count == 0 {
                    (self, SendAction::Finish(SendOutcome::NoBudget))
                } else if exit_signal {
                    (self, SendAction::Finish(SendOutcome::Cancelled))
                } else {
                    (self, SendAction::GetConnection)
                }
            },
            SendEvent::Session { obtained } => match obtained {
                None => (self, SendAction::Finish(SendOutcome::NoSession)),
                Some(id) => (
                    self,
                    SendAction::OpenUnistream {
                        session: id,
                        timeout: self.connection_params.unistream_timeout,
                    },
                ),
            },
            SendEvent::StreamOpened { session, result } => match result {
                Ok(_) => (
                    self,
                    SendAction::WriteAll {
                        session,
                        identity: self.identity,
                        params: self.connection_params,
                    },
                ),
                Err(error) => self.after_failure(session, error),
            },
            SendEvent::Written { session, result } => match result {
                Ok(_) => (self, SendAction::Finish(SendOutcome::Delivered)),
                Err(error) => self.after_failure(session, error),
            },
        }
    }
}

/// One logical channel to one remote peer over one local endpoint.
#[derive(Debug)]
pub struct QuicConnection {
    session: Option<u64>,
    last_stable_id: u64,
    endpoint: usize,
    identity: PeerIdentity,
    connection_params: QuicConnectionParameters,
    timeout_counters: u64,
    has_connected_once: bool,
    connecting: bool,
}

impl View for QuicConnection {
    type V = ConnectionView;

    closed spec fn view(&self) -> ConnectionView {
        ConnectionView {
            session: self.session,
            last_stable_id: self.last_stable_id,
            endpoint: self.endpoint,
            identity: self.identity,
            connection_params: self.connection_params,
            timeout_count: self.timeout_counters,
            has_connected_once: self.has_connected_once,
            connecting: self.connecting,
        }
    }
}

impl QuicConnection {
    /// A connection with no session, no suspicion and no timeouts.
    pub fn new(
        identity: PeerIdentity,
        endpoint: usize,
        connection_params: QuicConnectionParameters,
    ) -> (connection: Self)
        ensures
            connection@ == ConnectionView::fresh(identity, endpoint, connection_params),
    {
        QuicConnection {
            session: None,
            last_stable_id: 0,
            endpoint,
            identity,
            connection_params,
            timeout_counters: 0,
            has_connected_once: false,
            connecting: false,
        }
    }

    /// What to hand to the transport to establish a session for this
    /// connection.
    pub fn connect(&self) -> (request: ConnectRequest)
        ensures
            request == self@.connect_request(),
    {
        ConnectRequest {
            identity: self.identity,
            endpoint: self.endpoint,
            connection_timeout: self.connection_params.connection_timeout,
            connection_retry_count: self.connection_params.connection_retry_count,
        }
    }

    /// Lets a caller who observed no session, or a suspected one, establish
    /// a session, unless another caller is at it.
    fn enter(&mut self, observed: Option<u64>) -> (action: SessionAction)
        ensures
            (final(self)@, action) == old(self)@.enter(observed),
    {
        if self.connecting {
            return SessionAction::Wait { observed };
        }
        match observed {
            None => {
                self.connecting = true;
                SessionAction::Connect(self.connect())
            },
            Some(suspected) => {
                match self.session {
                    Some(id) => {
                        if id != suspected {
                            return SessionAction::Return(Some(id));
                        }
                    },
                    None => {},
                }
                self.connecting = true;
                SessionAction::Reconnect(self.connect())
            },
        }
    }

    /// Takes one step of a call for a usable session.
    pub fn get_connection(&mut self, event: SessionEvent) -> (action: SessionAction)
        ensures
            (final(self)@, action) == old(self)@.get_connection(event),
    {
        match event {
            SessionEvent::Requested => {
                match self.session {
                    Some(id) => {
                        if id != self.last_stable_id {
                            return SessionAction::Return(Some(id));
                        }
                    },
                    None => {},
                }
                let observed = self.session;
                self.enter(observed)
            },
            SessionEvent::Resumed { observed } => self.enter(observed),
            SessionEvent::Connected { session } => {
                self.session = session;
                self.has_connected_once = true;
                self.connecting = false;
                SessionAction::Return(session)
            },
            SessionEvent::Reconnected { session } => {
                match session {
                    Some(id) => {
                        self.session = Some(id);
                    },
                    None => {},
                }
                self.connecting = false;
                SessionAction::Return(session)
            },
            SessionEvent::Abandoned => {
                self.connecting = false;
                SessionAction::Return(None)
            },
        }
    }

    /// Records what a failed stream operation on `session` means for the
    /// connection and ends the call.
    fn classify(&mut self, session: u64, error: QuicConnectionError) -> (action: SendAction)
        ensures
            (final(self)@, action) == old(self)@.after_failure(session, error),
    {
        match error {
            QuicConnectionError::ConnectionError { retry } => {
                if retry {
                    self.last_stable_id = session;
                    SendAction::Finish(SendOutcome::SessionSuspected)
                } else {
                    SendAction::Finish(SendOutcome::ConnectionFailed)
                }
            },
            QuicConnectionError::TimeOut => {
                self.timeout_counters = if self.timeout_counters == u64::MAX {
                    0
                } else {
                    self.timeout_counters + 1
                };
                SendAction::Finish(SendOutcome::TimedOut)
            },
        }
    }

    /// Takes one step of a call that sends a payload.
    pub fn send_transaction(&mut self, event: SendEvent) -> (action: SendAction)
        ensures
            (final(self)@, action) == old(self)@.send_transaction(event),
    {
        match event {
            SendEvent::Requested { exit_signal } => {
                if self.connection_params.connection_retry_count == 0 {
                    SendAction::Finish(SendOutcome::NoBudget)
                } else if exit_signal {
                    SendAction::Finish(SendOutcome::Cancelled)
                } else {
                    SendAction::GetConnection
                }
            },
            SendEvent::Session { obtained } => match obtained {
                None => SendAction::Finish(SendOutcome::NoSession),
                Some(id) => SendAction::OpenUnistream {
                    session: id,
                    timeout: self.connection_params.unistream_timeout,
                },
            },
            SendEvent::StreamOpened { session, result } => match result {
                Ok(_) => SendAction::WriteAll {
                    session,
                    identity: self.identity,
                    params: self.connection_params,
                },
                Err(error) => self.classify(session, error),
            },
            SendEvent::Written { session, result } => match result {
                Ok(_) => SendAction::Finish(SendOutcome::Delivered),
                Err(error) => self.classify(session, error),
            },
        }
    }

    /// Timeouts observed since the last reset.
    pub fn get_timeout_count(&self) -> (count: u64)
        ensures
            count == self@.timeout_count,
    {
        self.timeout_counters
    }

    /// Sets the timeout counter back to zero; nothing else changes.
    pub fn reset_timeouts(&mut self)
        ensures
            final(self)@ == (ConnectionView { timeout_count: 0, ..old(self)@ }),
    {
        self.timeout_counters = 0;
    }

    /// Whether a first connect has come back, with a session or without.
    pub fn has_connected_atleast_once(&self) -> (connected: bool)
        ensures
            connected == self@.has_connected_once,
    {
        self.has_connected_once
    }

    /// Stable identity of the installed session, if one is installed.
    pub fn session(&self) -> (session: Option<u64>)
        ensures
            session == self@.session,
    {
        self.session
    }

    /// Stable identity of the session last found broken.
    pub fn last_stable_id(&self) -> (id: u64)
        ensures
            id == self@.last_stable_id,
    {
        self.last_stable_id
    }

    /// Whether a caller is establishing a session right now.
    pub fn is_connecting(&self) -> (connecting: bool)
        ensures
            connecting == self@.connecting,
    {
        self.connecting
    }
}

} // verus!
