use quic_pool::connection::{SendAction, SendEvent, SendOutcome, SessionAction, SessionEvent};
use quic_pool::endpoints::EndpointPool;
use quic_pool::params::{QuicConnectionError, QuicConnectionParameters};
use quic_pool::pool::{Admission, PoolError, PooledConnection, QuicConnectionPool};
use std::time::Duration;

fn pool_tuning() -> QuicConnectionParameters {
    QuicConnectionParameters {
        connection_timeout: Duration::from_secs(2),
        unistream_timeout: Duration::from_millis(100),
        write_timeout: Duration::from_millis(100),
        connection_retry_count: 3,
    }
}

fn pool_of(connections: usize, capacity: usize) -> QuicConnectionPool {
    let mut supply = EndpointPool::new(2);
    QuicConnectionPool::new([1u8; 32], &mut supply, pool_tuning(), connections, capacity)
        .expect("the supply has endpoints")
}

fn admitted(pool: &mut QuicConnectionPool) -> (PooledConnection, bool) {
    match pool.get_pooled_connection() {
        Ok(Admission::Granted { guard, connect_first }) => (guard, connect_first),
        other => panic!("not admitted: {:?}", other),
    }
}

fn is_saturated(pool: &mut QuicConnectionPool) -> bool {
    matches!(pool.get_pooled_connection(), Ok(Admission::Saturated))
}

#[test]
fn new_pool_has_fresh_connections() {
    let pool = pool_of(3, 4);
    assert_eq!(pool.len(), 3);
    assert!(!pool.is_empty());
    assert!(!pool.is_closed());
    assert_eq!(pool.capacity(), 4);
    for position in 0..3 {
        assert_eq!(pool.in_sending(position), 0);
        let connection = pool.connection(position);
        assert_eq!(connection.session(), None);
        assert!(!connection.has_connected_atleast_once());
        assert_eq!(connection.get_timeout_count(), 0);
        assert_eq!(connection.connect().identity, [1u8; 32]);
        assert_eq!(connection.connect().connection_retry_count, 3);
    }
}

#[test]
fn new_pool_spreads_connections_over_the_endpoints() {
    let mut supply = EndpointPool::new(3);
    assert_eq!(supply.get(), Some(0));
    let pool = QuicConnectionPool::new([1u8; 32], &mut supply, pool_tuning(), 5, 1).unwrap();
    let endpoints: Vec<usize> =
        (0..5).map(|position| pool.connection(position).connect().endpoint).collect();
    assert_eq!(endpoints, vec![1, 2, 0, 1, 2]);
    // Five draws were made after the first.
    assert_eq!(supply.get(), Some(0));
}

#[test]
fn new_pool_fails_without_endpoints() {
    let mut supply = EndpointPool::new(0);
    let result = QuicConnectionPool::new([1u8; 32], &mut supply, pool_tuning(), 2, 1);
    assert!(matches!(result, Err(PoolError::NoEndpoint)));
}

#[test]
fn new_pool_without_connections_needs_no_endpoint() {
    let mut supply = EndpointPool::new(0);
    let mut pool = QuicConnectionPool::new([1u8; 32], &mut supply, pool_tuning(), 0, 1).unwrap();
    assert_eq!(pool.len(), 0);
    assert!(pool.is_empty());
    assert!(is_saturated(&mut pool));
}

#[test]
fn admission_takes_the_first_free_connection() {
    let mut pool = pool_of(2, 2);
    let (first, _) = admitted(&mut pool);
    let (second, _) = admitted(&mut pool);
    let (third, _) = admitted(&mut pool);
    assert_eq!(first.connection, 0);
    assert_eq!(second.connection, 0);
    assert_eq!(third.connection, 1);
    assert_eq!(pool.in_sending(0), 2);
    assert_eq!(pool.in_sending(1), 1);
    pool.release(first);
    assert_eq!(pool.in_sending(0), 1);
    let (fourth, _) = admitted(&mut pool);
    assert_eq!(fourth.connection, 0);
}

#[test]
fn as_many_callers_as_permits_are_all_admitted() {
    let mut pool = pool_of(3, 4);
    let mut guards = Vec::new();
    for _ in 0..12 {
        let (guard, _) = admitted(&mut pool);
        guards.push(guard);
        for position in 0..3 {
            assert!(pool.in_sending(position) <= 4);
        }
    }
    for position in 0..3 {
        assert_eq!(pool.in_sending(position), 4);
    }
    assert!(is_saturated(&mut pool));
    for guard in guards {
        pool.release(guard);
    }
    for position in 0..3 {
        assert_eq!(pool.in_sending(position), 0);
    }
}

#[test]
fn pool_without_permits_admits_nobody() {
    let mut pool = pool_of(2, 0);
    assert!(is_saturated(&mut pool));
    assert_eq!(pool.in_sending(0), 0);
}

#[test]
fn closed_pool_is_erased() {
    let mut pool = pool_of(2, 1);
    let (guard, _) = admitted(&mut pool);
    pool.close();
    assert!(pool.is_closed());
    assert!(matches!(pool.get_pooled_connection(), Err(PoolError::Erased)));
    assert_eq!(pool.in_sending(0), 1);
    assert_eq!(pool.in_sending(1), 0);
    pool.release(guard);
    assert_eq!(pool.in_sending(0), 0);
    assert!(matches!(pool.get_pooled_connection(), Err(PoolError::Erased)));
}

#[test]
fn connection_is_warmed_up_until_it_has_connected() {
    let mut pool = pool_of(1, 3);
    let (first, connect_first) = admitted(&mut pool);
    assert!(connect_first);
    // A second caller comes before the first connect is back.
    let (second, connect_first) = admitted(&mut pool);
    assert!(connect_first);
    let request = pool.connection(0).connect();
    assert_eq!(
        pool.get_connection(first.connection, SessionEvent::Requested),
        SessionAction::Connect(request)
    );
    assert_eq!(
        pool.get_connection(second.connection, SessionEvent::Requested),
        SessionAction::Wait { observed: None }
    );
    assert_eq!(
        pool.get_connection(first.connection, SessionEvent::Connected { session: None }),
        SessionAction::Return(None)
    );
    let (third, connect_first) = admitted(&mut pool);
    assert!(!connect_first);
    pool.release(first);
    pool.release(second);
    pool.release(third);
    assert_eq!(pool.in_sending(0), 0);
}

#[test]
fn pool_steps_touch_one_connection_only() {
    let mut pool = pool_of(2, 1);
    pool.get_connection(1, SessionEvent::Connected { session: Some(8) });
    assert_eq!(
        pool.send_transaction(
            1,
            SendEvent::Written { session: 8, result: Err(QuicConnectionError::TimeOut) }
        ),
        SendAction::Finish(SendOutcome::TimedOut)
    );
    assert_eq!(pool.connection(1).session(), Some(8));
    assert_eq!(pool.connection(1).get_timeout_count(), 1);
    assert_eq!(pool.connection(0).session(), None);
    assert_eq!(pool.connection(0).get_timeout_count(), 0);
    assert!(!pool.connection(0).has_connected_atleast_once());
    assert_eq!(pool.in_sending(0), 0);
    assert_eq!(pool.in_sending(1), 0);
}
