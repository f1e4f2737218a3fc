//! A fixed set of connections to one peer, each with a bounded number of
//! sends in flight.
//!
//! A caller is admitted to the first connection that has a permit left and
//! holds that permit until it gives its guard back. When every connection is
//! at its bound the caller has to wait for a release.
use crate::connection::{ConnectionView, QuicConnection, SendAction, SendEvent, SessionAction, SessionEvent};
use crate::endpoints::{EndpointPool, EndpointsView};
use crate::params::{PeerIdentity, QuicConnectionParameters};
use vstd::prelude::*;

verus! {

/// Why a pool cannot be built, or cannot admit.
#[derive(Clone, Copy, Debug, PartialEq, Eq)]
pub enum PoolError {
    /// The endpoint supply is empty.
    NoEndpoint,
    /// The pool was closed, and with it every permit set.
    Erased,
}

/// One permit out of the permit set of one connection.
#[derive(Debug)]
pub struct Permit {
    set: usize,
}

impl View for Permit {
    type V = usize;

    /// The position of the connection whose permit set this permit is from.
    closed spec fn view(&self) -> usize {
        self.set
    }
}

/// A connection of the pool together with one held permit of its set.
#[derive(Debug)]
pub struct PooledConnection {
    /// The position of the connection in the pool.
    pub connection: usize,
    /// The permit held on its behalf.
    pub permit: Permit,
}

/// The answer to a caller who asks for a pooled connection.
#[derive(Debug)]
pub enum Admission {
    /// The caller holds a permit. Where `connect_first` is set, the
    /// connection has never connected, and the driver runs a call for a
    /// usable session on it before it hands the guard on.
    Granted { guard: PooledConnection, connect_first: bool },
    /// Every connection is at its bound: wait for a release and ask again.
    Saturated,
}

/// The state of a pool as the contracts see it.
pub struct PoolView {
    /// The connections, by position.
    pub connections: Seq<ConnectionView>,
    /// Permits held, connection by connection.
    pub in_sending: Seq<usize>,
    /// Permits in each set.
    pub capacity: usize,
    /// The pool admits nobody any more.
    pub closed: bool,
}

impl PoolView {
    /// One permit count per connection, none above the capacity.
    pub open spec fn wf(self) -> bool {
        &&& self.in_sending.len() == self.connections.len()
        &&& forall|i: int| 0 <= i < self.in_sending.len() ==> self.in_sending[i] <= self.capacity
    }

    /// The pool that `new` builds: `count` fresh connections, the one at
    /// position `i` on the endpoint of the `i`-th draw, and no permit held.
    pub open spec fn built(
        identity: PeerIdentity,
        endpoints: EndpointsView,
        connection_params: QuicConnectionParameters,
        count: usize,
        capacity: usize,
    ) -> PoolView {
        PoolView {
            connections: Seq::new(
                count as nat,
                |i: int|
                    ConnectionView::fresh(
                        identity,
                        endpoints.nth(i as nat) as usize,
                        connection_params,
                    ),
            ),
            in_sending: Seq::new(count as nat, |i: int| 0usize),
            capacity,
            closed: false,
        }
    }

    /// `position` is the lowest one whose connection has a permit left.
    pub open spec fn is_first_free(self, position: int) -> bool {
        &&& 0 <= position < self.in_sending.len()
        &&& self.in_sending[position] < self.capacity
        &&& forall|lower: int| 0 <= lower < position ==> self.in_sending[lower] >= self.capacity
    }

    /// No connection has a permit left.
    pub open spec fn is_saturated(self) -> bool {
        forall|i: int| 0 <= i < self.in_sending.len() ==> self.in_sending[i] >= self.capacity
    }

    /// The pool with one more permit held at `position`.
    pub open spec fn admitted(self, position: int) -> PoolView {
        PoolView {
            in_sending: self.in_sending.update(
                position,
                (self.in_sending[position] + 1) as usize,
            ),
            ..self
        }
    }

    /// A permit of the set at `position` is held.
    pub open spec fn holds(self, position: int) -> bool {
        0 <= position < self.in_sending.len() && self.in_sending[position] > 0
    }

    /// The pool after a permit of the set at `position` came back: one less
    /// is held there, if one was.
    pub open spec fn released(self, position: int) -> PoolView {
        if self.holds(position) {
            PoolView {
                in_sending: self.in_sending.update(
                    position,
                    (self.in_sending[position] - 1) as usize,
                ),
                ..self
            }
        } else {
            self
        }
    }

    /// The pool and the action after one step of a call for a usable session
    /// on the connection at `position`.
    pub open spec fn get_connection(self, position: int, event: SessionEvent) -> (
        PoolView,
        SessionAction,
    ) {
        let step = self.connections[position].get_connection(event);
        (self.with_connection(position, step.0), step.1)
    }

    /// The pool and the action after one step of a call that sends a payload
    /// on the connection at `position`.
    pub open spec fn send_transaction(self, position: int, event: SendEvent) -> (
        PoolView,
        SendAction,
    ) {
        let step = self.connections[position].send_transaction(event);
        (self.with_connection(position, step.0), step.1)
    }

    /// The pool with the connection at `position` in another state.
    pub open spec fn with_connection(self, position: int, connection: ConnectionView) -> PoolView {
        PoolView { connections: self.connections.update(position, connection), ..self }
    }
}

/// A fixed set of connections, each with its permit set.
#[derive(Debug)]
pub struct QuicConnectionPool {
    connections: Vec<QuicConnection>,
    transactions_in_sending: Vec<usize>,
    max_number_of_unistream_connection: usize,
    closed: bool,
}

impl View for QuicConnectionPool {
    type V = PoolView;

    closed spec fn view(&self) -> PoolView {
        PoolView {
            connections: Seq::new(self.connections@.len(), |i: int| self.connections@[i]@),
            in_sending: self.transactions_in_sending@,
            capacity: self.max_number_of_unistream_connection,
            closed: self.closed,
        }
    }
}

impl QuicConnectionPool {
    /// Builds `nb_connection` connections to the peer, each on the next
    /// endpoint of the supply, with `max_number_of_unistream_connection`
    /// permits each. Fails only where a connection is asked for and the supply
    /// is empty.
    pub fn new(
        identity: PeerIdentity,
        endpoints: &mut EndpointPool,
        connection_parameters: QuicConnectionParameters,
        nb_connection: usize,
        max_number_of_unistream_connection: usize,
    ) -> (result: Result<Self, PoolError>)
        ensures
            result is Err <==> nb_connection > 0 && old(endpoints)@.size == 0,
            result matches Err(error) ==> error == PoolError::NoEndpoint && final(endpoints)@ == old(
                endpoints,
            )@,
            result matches Ok(pool) ==> {
                &&& pool@ == PoolView::built(
                    identity,
                    old(endpoints)@,
                    connection_parameters,
                    nb_connection,
                    max_number_of_unistream_connection,
                )
                &&& pool@.wf()
                &&& final(endpoints)@ == old(endpoints)@.advanced(nb_connection as nat)
            },
    {
        let size: usize = endpoints.len();
        let ghost supply = endpoints@;
        let mut connections: Vec<QuicConnection> = Vec::new();
        let mut permits: Vec<usize> = Vec::new();
        let mut built: usize = 0;
        assert(supply.advanced(0) == supply) by {
            if supply.size > 0 {
                vstd::arithmetic::div_mod::lemma_small_mod(supply.current, supply.size);
            }
        }
        while built < nb_connection
            invariant
                built <= nb_connection,
                supply == old(endpoints)@,
                supply.wf(),
                supply.size == size,
                endpoints@ == supply.advanced(built as nat),
                connections.len() == built,
                permits.len() == built,
                built > 0 ==> size > 0,
                forall|k: int|
                    0 <= k < built ==> (#[trigger] connections[k])@ == ConnectionView::fresh(
                        identity,
                        supply.nth(k as nat) as usize,
                        connection_parameters,
                    ),
                forall|k: int| 0 <= k < built ==> #[trigger] permits[k] == 0,
            decreases nb_connection - built,
        {
            match endpoints.get() {
                None => {
                    return Err(PoolError::NoEndpoint);
                },
                Some(endpoint) => {
                    proof {
                        vstd::arithmetic::div_mod::lemma_add_mod_noop(
                            supply.current + built,
                            1,
                            supply.size as int,
                        );
                        vstd::arithmetic::div_mod::lemma_small_mod(
                            supply.nth(built as nat),
                            supply.size,
                        );
                        if supply.size > 1 {
                            vstd::arithmetic::div_mod::lemma_small_mod(1, supply.size);
                        }
                    }
                    connections.push(QuicConnection::new(identity, endpoint, connection_parameters));
                    permits.push(0);
                },
            }
            built = built + 1;
        }
        let pool = QuicConnectionPool {
            connections,
            transactions_in_sending: permits,
            max_number_of_unistream_connection,
            closed: false,
        };
        proof {
            let expected = PoolView::built(
                identity,
                supply,
                connection_parameters,
                nb_connection,
                max_number_of_unistream_connection,
            );
            assert(pool@.connections =~= expected.connections);
            assert(pool@.in_sending =~= expected.in_sending);
        }
        Ok(pool)
    }

    /// Admits the caller to the first connection that has a permit left.
    ///
    /// A closed pool admits nobody. A pool whose connections are all at their
    /// bound, or that has none, answers `Saturated` and stays as it is.
    /// Otherwise one more permit is held at the first free position, and the
    /// guard names that position.
    pub fn get_pooled_connection(&mut self) -> (result: Result<Admission, PoolError>)
        requires
            old(self)@.wf(),
        ensures
            final(self)@.wf(),
            match result {
                Err(error) => {
                    &&& error == PoolError::Erased
                    &&& old(self)@.closed
                    &&& final(self)@ == old(self)@
                },
                Ok(Admission::Saturated) => {
                    &&& !old(self)@.closed
                    &&& old(self)@.is_saturated()
                    &&& final(self)@ == old(self)@
                },
                Ok(Admission::Granted { guard, connect_first }) => {
                    &&& !old(self)@.closed
                    &&& old(self)@.is_first_free(guard.connection as int)
                    &&& guard.permit@ == guard.connection
                    &&& connect_first == !old(self)@.connections[guard.connection as int]
                        .has_connected_once
                    &&& final(self)@ == old(self)@.admitted(guard.connection as int)
                },
            },
    {
        if self.closed {
            return Err(PoolError::Erased);
        }
        let mut position: usize = 0;
        while position < self.transactions_in_sending.len()
            invariant
                *self == *old(self),
                !self.closed,
                self@.wf(),
                position <= self.transactions_in_sending.len(),
                forall|lower: int|
                    0 <= lower < position ==> self@.in_sending[lower] >= self@.capacity,
            decreases self.transactions_in_sending.len() - position,
        {
            let held: usize = self.transactions_in_sending[position];
            if held < self.max_number_of_unistream_connection {
                let connect_first = !self.connections[position].has_connected_atleast_once();
                self.transactions_in_sending.set(position, held + 1);
                assert(self@.connections =~= old(self)@.connections);
                return Ok(
                    Admission::Granted {
                        guard: PooledConnection { connection: position, permit: Permit { set: position } },
                        connect_first,
                    },
                );
            }
            position = position + 1;
        }
        Ok(Admission::Saturated)
    }

    /// Takes back the permit of a guard: one less is held at its position.
    /// A guard that names no held permit of this pool changes nothing.
    pub fn release(&mut self, guard: PooledConnection)
        requires
            old(self)@.wf(),
        ensures
            final(self)@ == old(self)@.released(guard.permit@ as int),
            final(self)@.wf(),
    {
        let position: usize = guard.permit.set;
        if position < self.transactions_in_sending.len() {
            let held: usize = self.transactions_in_sending[position];
            if held > 0 {
                self.transactions_in_sending.set(position, held - 1);
                assert(self@.connections =~= old(self)@.connections);
            }
        }
    }

    /// Closes the pool: from now on nobody is admitted. Permits that are held
    /// can still come back.
    pub fn close(&mut self)
        requires
            old(self)@.wf(),
        ensures
            final(self)@ == (PoolView { closed: true, ..old(self)@ }),
            final(self)@.wf(),
    {
        self.closed = true;
        assert(self@.connections =~= old(self)@.connections);
    }

    /// Whether the pool was closed.
    pub fn is_closed(&self) -> (closed: bool)
        ensures
            closed == self@.closed,
    {
        self.closed
    }

    /// Permits in each permit set.
    pub fn capacity(&self) -> (capacity: usize)
        ensures
            capacity == self@.capacity,
    {
        self.max_number_of_unistream_connection
    }

    /// Permits held at `position`.
    pub fn in_sending(&self, position: usize) -> (held: usize)
        requires
            self@.wf(),
            position < self@.connections.len(),
        ensures
            held == self@.in_sending[position as int],
    {
        self.transactions_in_sending[position]
    }

    /// The connection at `position`.
    pub fn connection(&self, position: usize) -> (connection: &QuicConnection)
        requires
            self@.wf(),
            position < self@.connections.len(),
        ensures
            connection@ == self@.connections[position as int],
    {
        &self.connections[position]
    }

    /// Takes one step of a call for a usable session on the connection at
    /// `position`. The other connections and the permits stay as they are.
    pub fn get_connection(&mut self, position: usize, event: SessionEvent) -> (action:
        SessionAction)
        requires
            old(self)@.wf(),
            position < old(self)@.connections.len(),
        ensures
            final(self)@.wf(),
            (final(self)@, action) == old(self)@.get_connection(position as int, event),
    {
        let action = self.connections[position].get_connection(event);
        assert(self@.connections =~= old(self)@.with_connection(
            position as int,
            old(self)@.connections[position as int].get_connection(event).0,
        ).connections);
        action
    }

    /// Takes one step of a call that sends a payload on the connection at
    /// `position`. The other connections and the permits stay as they are.
    pub fn send_transaction(&mut self, position: usize, event: SendEvent) -> (action: SendAction)
        requires
            old(self)@.wf(),
            position < old(self)@.connections.len(),
        ensures
            final(self)@.wf(),
            (final(self)@, action) == old(self)@.send_transaction(position as int, event),
    {
        let action = self.connections[position].send_transaction(event);
        assert(self@.connections =~= old(self)@.with_connection(
            position as int,
            old(self)@.connections[position as int].send_transaction(event).0,
        ).connections);
        action
    }

    /// Sets the timeout counter of the connection at `position` back to zero.
    pub fn reset_timeouts(&mut self, position: usize)
        requires
            old(self)@.wf(),
            position < old(self)@.connections.len(),
        ensures
            final(self)@.wf(),
            final(self)@ == old(self)@.with_connection(
                position as int,
                ConnectionView { timeout_count: 0, ..old(self)@.connections[position as int] },
            ),
    {
        self.connections[position].reset_timeouts();
        assert(self@.connections =~= old(self)@.with_connection(
            position as int,
            ConnectionView { timeout_count: 0, ..old(self)@.connections[position as int] },
        ).connections);
    }

    /// How many connections the pool has.
    pub fn len(&self) -> (count: usize)
        ensures
            count == self@.connections.len(),
    {
        self.connections.len()
    }

    /// Whether the pool was built without any connection.
    pub fn is_empty(&self) -> (empty: bool)
        ensures
            empty == (self@.connections.len() == 0),
    {
        self.connections.len() == 0
    }
}

} // verus!
