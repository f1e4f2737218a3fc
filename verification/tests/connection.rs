use quic_pool::connection::{
    ConnectRequest, QuicConnection, SendAction, SendEvent, SendOutcome, SessionAction,
    SessionEvent,
};
use quic_pool::params::{QuicConnectionError, QuicConnectionParameters};
use std::time::Duration;

fn tuning(retries: usize) -> QuicConnectionParameters {
    QuicConnectionParameters {
        connection_timeout: Duration::from_secs(1),
        unistream_timeout: Duration::from_millis(500),
        write_timeout: Duration::from_millis(250),
        connection_retry_count: retries,
    }
}

fn connected(id: u64) -> QuicConnection {
    let mut c = QuicConnection::new([7u8; 32], 3, tuning(5));
    c.get_connection(SessionEvent::Connected { session: Some(id) });
    c
}

const RETRY: Result<(), QuicConnectionError> =
    Err(QuicConnectionError::ConnectionError { retry: true });
const NO_RETRY: Result<(), QuicConnectionError> =
    Err(QuicConnectionError::ConnectionError { retry: false });
const TIMEOUT: Result<(), QuicConnectionError> = Err(QuicConnectionError::TimeOut);

#[test]
fn new_connection_has_nothing() {
    let c = QuicConnection::new([7u8; 32], 3, tuning(5));
    assert_eq!(c.session(), None);
    assert_eq!(c.get_timeout_count(), 0);
    assert!(!c.has_connected_atleast_once());
    assert_eq!(c.last_stable_id(), 0);
}

#[test]
fn connect_request_carries_the_tuning() {
    let c = QuicConnection::new([9u8; 32], 4, tuning(6));
    assert_eq!(
        c.connect(),
        ConnectRequest {
            identity: [9u8; 32],
            endpoint: 4,
            connection_timeout: Duration::from_secs(1),
            connection_retry_count: 6,
        }
    );
}

#[test]
fn first_request_asks_for_a_connect() {
    let mut c = QuicConnection::new([7u8; 32], 3, tuning(5));
    let request = c.connect();
    assert!(!c.is_connecting());
    assert_eq!(c.get_connection(SessionEvent::Requested), SessionAction::Connect(request));
    assert!(c.is_connecting());
    assert_eq!(c.session(), None);
    assert!(!c.has_connected_atleast_once());
}

#[test]
fn second_caller_waits_while_the_first_connects() {
    let mut c = QuicConnection::new([7u8; 32], 3, tuning(5));
    let request = c.connect();
    assert_eq!(c.get_connection(SessionEvent::Requested), SessionAction::Connect(request));
    assert_eq!(c.get_connection(SessionEvent::Requested), SessionAction::Wait { observed: None });
    assert_eq!(
        c.get_connection(SessionEvent::Resumed { observed: None }),
        SessionAction::Wait { observed: None }
    );
    assert_eq!(
        c.get_connection(SessionEvent::Connected { session: Some(41) }),
        SessionAction::Return(Some(41))
    );
    assert!(!c.is_connecting());
    // The caller who saw no session connects in its turn.
    assert_eq!(
        c.get_connection(SessionEvent::Resumed { observed: None }),
        SessionAction::Connect(request)
    );
    assert_eq!(
        c.get_connection(SessionEvent::Connected { session: Some(42) }),
        SessionAction::Return(Some(42))
    );
    assert_eq!(c.session(), Some(42));
    assert!(!c.is_connecting());
}

#[test]
fn caller_who_gives_up_makes_way() {
    let mut c = QuicConnection::new([7u8; 32], 3, tuning(5));
    let request = c.connect();
    assert_eq!(c.get_connection(SessionEvent::Requested), SessionAction::Connect(request));
    assert_eq!(c.get_connection(SessionEvent::Abandoned), SessionAction::Return(None));
    assert!(!c.is_connecting());
    assert!(!c.has_connected_atleast_once());
    assert_eq!(c.session(), None);
    assert_eq!(c.get_connection(SessionEvent::Requested), SessionAction::Connect(request));
}

#[test]
fn first_connect_installs_the_session() {
    let mut c = QuicConnection::new([7u8; 32], 3, tuning(5));
    assert_eq!(
        c.get_connection(SessionEvent::Connected { session: Some(41) }),
        SessionAction::Return(Some(41))
    );
    assert_eq!(c.session(), Some(41));
    assert!(c.has_connected_atleast_once());
}

#[test]
fn failed_first_connect_still_counts_as_connected_once() {
    let mut c = QuicConnection::new([7u8; 32], 3, tuning(5));
    assert_eq!(
        c.get_connection(SessionEvent::Connected { session: None }),
        SessionAction::Return(None)
    );
    assert_eq!(c.session(), None);
    assert!(c.has_connected_atleast_once());
    let request = c.connect();
    assert_eq!(c.get_connection(SessionEvent::Requested), SessionAction::Connect(request));
}

#[test]
fn late_first_connect_overwrites_the_installed_session() {
    let mut c = connected(41);
    assert_eq!(
        c.get_connection(SessionEvent::Connected { session: None }),
        SessionAction::Return(None)
    );
    assert_eq!(c.session(), None);
}

#[test]
fn healthy_session_is_handed_out_as_it_is() {
    let mut c = connected(41);
    assert_eq!(c.get_connection(SessionEvent::Requested), SessionAction::Return(Some(41)));
    assert_eq!(c.get_connection(SessionEvent::Requested), SessionAction::Return(Some(41)));
    assert_eq!(c.session(), Some(41));
}

#[test]
fn healthy_session_is_handed_out_while_somebody_connects() {
    let mut c = QuicConnection::new([7u8; 32], 3, tuning(5));
    c.get_connection(SessionEvent::Requested);
    c.get_connection(SessionEvent::Connected { session: Some(41) });
    c.get_connection(SessionEvent::Resumed { observed: None });
    assert!(c.is_connecting());
    assert_eq!(c.get_connection(SessionEvent::Requested), SessionAction::Return(Some(41)));
    assert!(c.is_connecting());
}

#[test]
fn session_with_identity_zero_is_suspected_from_the_start() {
    let mut c = connected(0);
    let request = c.connect();
    assert_eq!(c.get_connection(SessionEvent::Requested), SessionAction::Reconnect(request));
}

#[test]
fn suspected_session_is_replaced_once() {
    let mut c = connected(41);
    assert_eq!(
        c.send_transaction(SendEvent::StreamOpened { session: 41, result: RETRY }),
        SendAction::Finish(SendOutcome::SessionSuspected)
    );
    assert_eq!(c.last_stable_id(), 41);
    // Three callers see the suspected session: the first reconnects.
    let request = c.connect();
    assert_eq!(c.get_connection(SessionEvent::Requested), SessionAction::Reconnect(request));
    assert_eq!(
        c.get_connection(SessionEvent::Requested),
        SessionAction::Wait { observed: Some(41) }
    );
    assert_eq!(
        c.get_connection(SessionEvent::Requested),
        SessionAction::Wait { observed: Some(41) }
    );
    assert_eq!(
        c.get_connection(SessionEvent::Resumed { observed: Some(41) }),
        SessionAction::Wait { observed: Some(41) }
    );
    assert_eq!(c.session(), Some(41));
    assert_eq!(
        c.get_connection(SessionEvent::Reconnected { session: Some(42) }),
        SessionAction::Return(Some(42))
    );
    // The others find the replacement.
    assert_eq!(
        c.get_connection(SessionEvent::Resumed { observed: Some(41) }),
        SessionAction::Return(Some(42))
    );
    assert_eq!(
        c.get_connection(SessionEvent::Resumed { observed: Some(41) }),
        SessionAction::Return(Some(42))
    );
    assert_eq!(c.get_connection(SessionEvent::Requested), SessionAction::Return(Some(42)));
    assert_eq!(c.session(), Some(42));
    assert_eq!(c.last_stable_id(), 41);
    assert!(!c.is_connecting());
}

#[test]
fn failed_reconnect_keeps_the_suspected_session() {
    let mut c = connected(41);
    c.send_transaction(SendEvent::Written { session: 41, result: RETRY });
    let request = c.connect();
    assert_eq!(c.get_connection(SessionEvent::Requested), SessionAction::Reconnect(request));
    assert_eq!(
        c.get_connection(SessionEvent::Reconnected { session: None }),
        SessionAction::Return(None)
    );
    assert_eq!(c.session(), Some(41));
    assert!(!c.is_connecting());
    // The next caller tries again.
    assert_eq!(
        c.get_connection(SessionEvent::Resumed { observed: Some(41) }),
        SessionAction::Reconnect(request)
    );
    assert_eq!(c.get_connection(SessionEvent::Abandoned), SessionAction::Return(None));
    assert_eq!(c.session(), Some(41));
    assert_eq!(c.get_connection(SessionEvent::Requested), SessionAction::Reconnect(request));
}

#[test]
fn waiter_for_a_suspected_session_reconnects_when_none_is_installed() {
    let mut c = QuicConnection::new([7u8; 32], 3, tuning(5));
    let request = c.connect();
    assert_eq!(
        c.get_connection(SessionEvent::Resumed { observed: Some(41) }),
        SessionAction::Reconnect(request)
    );
    assert_eq!(
        c.get_connection(SessionEvent::Reconnected { session: Some(43) }),
        SessionAction::Return(Some(43))
    );
    assert_eq!(c.session(), Some(43));
    assert!(!c.has_connected_atleast_once());
}

#[test]
fn send_without_budget_tries_nothing() {
    let mut c = QuicConnection::new([7u8; 32], 3, tuning(0));
    assert_eq!(
        c.send_transaction(SendEvent::Requested { exit_signal: false }),
        SendAction::Finish(SendOutcome::NoBudget)
    );
    assert_eq!(
        c.send_transaction(SendEvent::Requested { exit_signal: true }),
        SendAction::Finish(SendOutcome::NoBudget)
    );
}

#[test]
fn send_with_exit_signal_is_cancelled() {
    let mut c = connected(41);
    assert_eq!(
        c.send_transaction(SendEvent::Requested { exit_signal: true }),
        SendAction::Finish(SendOutcome::Cancelled)
    );
    assert_eq!(c.session(), Some(41));
    assert_eq!(c.get_timeout_count(), 0);
    assert_eq!(c.last_stable_id(), 0);
}

#[test]
fn send_asks_for_a_session_first() {
    let mut c = QuicConnection::new([7u8; 32], 3, tuning(1));
    assert_eq!(
        c.send_transaction(SendEvent::Requested { exit_signal: false }),
        SendAction::GetConnection
    );
}

#[test]
fn send_without_a_session_gives_up() {
    let mut c = QuicConnection::new([7u8; 32], 3, tuning(5));
    assert_eq!(
        c.send_transaction(SendEvent::Session { obtained: None }),
        SendAction::Finish(SendOutcome::NoSession)
    );
    assert_eq!(c.get_timeout_count(), 0);
}

#[test]
fn send_opens_a_stream_then_writes() {
    let mut c = connected(41);
    assert_eq!(
        c.send_transaction(SendEvent::Session { obtained: Some(41) }),
        SendAction::OpenUnistream { session: 41, timeout: Duration::from_millis(500) }
    );
    assert_eq!(
        c.send_transaction(SendEvent::StreamOpened { session: 41, result: Ok(()) }),
        SendAction::WriteAll { session: 41, identity: [7u8; 32], params: tuning(5) }
    );
    assert_eq!(
        c.send_transaction(SendEvent::Written { session: 41, result: Ok(()) }),
        SendAction::Finish(SendOutcome::Delivered)
    );
    assert_eq!(c.get_timeout_count(), 0);
    assert_eq!(c.last_stable_id(), 0);
    assert_eq!(c.session(), Some(41));
}

#[test]
fn connection_error_without_retry_marks_nothing() {
    let mut c = connected(41);
    assert_eq!(
        c.send_transaction(SendEvent::StreamOpened { session: 41, result: NO_RETRY }),
        SendAction::Finish(SendOutcome::ConnectionFailed)
    );
    assert_eq!(
        c.send_transaction(SendEvent::Written { session: 41, result: NO_RETRY }),
        SendAction::Finish(SendOutcome::ConnectionFailed)
    );
    assert_eq!(c.last_stable_id(), 0);
    assert_eq!(c.get_timeout_count(), 0);
    assert_eq!(c.get_connection(SessionEvent::Requested), SessionAction::Return(Some(41)));
}

#[test]
fn retryable_error_marks_the_session_it_was_seen_on() {
    let mut c = connected(41);
    assert_eq!(
        c.send_transaction(SendEvent::Written { session: 40, result: RETRY }),
        SendAction::Finish(SendOutcome::SessionSuspected)
    );
    assert_eq!(c.last_stable_id(), 40);
    assert_eq!(c.get_timeout_count(), 0);
    // The installed session is another one: it is still handed out.
    assert_eq!(c.get_connection(SessionEvent::Requested), SessionAction::Return(Some(41)));
}

#[test]
fn timeouts_are_counted_one_by_one() {
    let mut c = connected(41);
    assert_eq!(
        c.send_transaction(SendEvent::StreamOpened { session: 41, result: TIMEOUT }),
        SendAction::Finish(SendOutcome::TimedOut)
    );
    assert_eq!(c.get_timeout_count(), 1);
    assert_eq!(
        c.send_transaction(SendEvent::Written { session: 41, result: TIMEOUT }),
        SendAction::Finish(SendOutcome::TimedOut)
    );
    assert_eq!(c.get_timeout_count(), 2);
    assert_eq!(c.last_stable_id(), 0);
    assert_eq!(c.session(), Some(41));
}

#[test]
fn only_timeouts_and_resets_move_the_counter() {
    let mut c = connected(41);
    c.send_transaction(SendEvent::Written { session: 41, result: TIMEOUT });
    c.send_transaction(SendEvent::Requested { exit_signal: false });
    c.send_transaction(SendEvent::Session { obtained: Some(41) });
    c.send_transaction(SendEvent::StreamOpened { session: 41, result: Ok(()) });
    c.send_transaction(SendEvent::Written { session: 41, result: Ok(()) });
    c.send_transaction(SendEvent::Written { session: 41, result: RETRY });
    c.send_transaction(SendEvent::StreamOpened { session: 41, result: NO_RETRY });
    c.get_connection(SessionEvent::Requested);
    c.get_connection(SessionEvent::Resumed { observed: Some(41) });
    c.get_connection(SessionEvent::Reconnected { session: Some(42) });
    c.get_connection(SessionEvent::Abandoned);
    assert_eq!(c.get_timeout_count(), 1);
    c.reset_timeouts();
    assert_eq!(c.get_timeout_count(), 0);
    assert_eq!(c.session(), Some(42));
    assert_eq!(c.last_stable_id(), 41);
    assert!(c.has_connected_atleast_once());
}

#[test]
fn connected_once_survives_reconnects_and_failures() {
    let mut c = connected(41);
    c.send_transaction(SendEvent::Written { session: 41, result: RETRY });
    c.get_connection(SessionEvent::Requested);
    c.get_connection(SessionEvent::Reconnected { session: None });
    c.get_connection(SessionEvent::Requested);
    c.get_connection(SessionEvent::Abandoned);
    assert!(c.has_connected_atleast_once());
    c.get_connection(SessionEvent::Reconnected { session: Some(42) });
    c.send_transaction(SendEvent::StreamOpened { session: 42, result: TIMEOUT });
    c.reset_timeouts();
    c.get_connection(SessionEvent::Connected { session: None });
    assert!(c.has_connected_atleast_once());
}
