//! What holds of the permits of a pool, whoever asks and in whatever order.
use crate::connection::{SendEvent, SessionEvent};
use crate::pool::PoolView;
use vstd::prelude::*;

verus! {

/// Anything that can happen to a pool.
pub enum PoolOp {
    /// A caller asks for a pooled connection.
    Request,
    /// The permit of the set at this position comes back.
    Release(int),
    /// A step of a call for a usable session on the connection at this
    /// position.
    Session(int, SessionEvent),
    /// A step of a call that sends a payload on the connection at this
    /// position.
    Send(int, SendEvent),
    /// The pool is closed.
    Close,
}

/// The sum of the counts.
pub open spec fn held_in(counts: Seq<usize>) -> nat
    decreases counts.len(),
{
    if counts.len() == 0 {
        0
    } else {
        held_in(counts.drop_last()) + (counts.last() as nat)
    }
}

impl PoolView {
    /// The first position at or after `from` whose connection has a permit
    /// left.
    pub open spec fn first_free_from(self, from: int) -> Option<int>
        decreases self.in_sending.len() - from,
    {
        if from < 0 || from >= self.in_sending.len() {
            None
        } else if self.in_sending[from] < self.capacity {
            Some(from)
        } else {
            self.first_free_from(from + 1)
        }
    }

    /// The first position whose connection has a permit left: the one at
    /// which the next caller is admitted.
    pub open spec fn first_free(self) -> Option<int> {
        self.first_free_from(0)
    }

    /// Permits held over all connections.
    pub open spec fn total_in_sending(self) -> nat {
        held_in(self.in_sending)
    }

    /// Permits that the pool has in all.
    pub open spec fn total_capacity(self) -> nat {
        self.connections.len() * (self.capacity as nat)
    }

    /// The pool after one caller asked: admitted at the first free position,
    /// or unchanged where there is none or the pool is closed.
    pub open spec fn after_request(self) -> PoolView {
        match self.first_free() {
            Some(position) if !self.closed => self.admitted(position),
            _ => self,
        }
    }

    /// The pool after one operation. A step on a connection that is not there
    /// changes nothing.
    pub open spec fn apply(self, op: PoolOp) -> PoolView {
        match op {
            PoolOp::Request => self.after_request(),
            PoolOp::Release(position) => self.released(position),
            PoolOp::Session(position, event) => if 0 <= position < self.connections.len() {
                self.get_connection(position, event).0
            } else {
                self
            },
            PoolOp::Send(position, event) => if 0 <= position < self.connections.len() {
                self.send_transaction(position, event).0
            } else {
                self
            },
            PoolOp::Close => PoolView { closed: true, ..self },
        }
    }

    /// The pool after the operations, first to last.
    pub open spec fn apply_all(self, ops: Seq<PoolOp>) -> PoolView
        decreases ops.len(),
    {
        if ops.len() == 0 {
            self
        } else {
            self.apply_all(ops.drop_last()).apply(ops.last())
        }
    }

    /// The pool after `callers` callers asked, one after the other, and none
    /// gave a permit back.
    pub open spec fn after_requests(self, callers: nat) -> PoolView
        decreases callers,
    {
        if callers == 0 {
            self
        } else {
            self.after_requests((callers - 1) as nat).after_request()
        }
    }
}

/// The first free position at or after `from` is free, and no position
/// between the two is; there is none exactly if every position from `from` on
/// is at its bound.
pub proof fn lemma_first_free_from(pool: PoolView, from: int)
    requires
        0 <= from,
    ensures
        match pool.first_free_from(from) {
            Some(position) => {
                &&& from <= position < pool.in_sending.len()
                &&& pool.in_sending[position] < pool.capacity
                &&& forall|j: int| from <= j < position ==> pool.in_sending[j] >= pool.capacity
            },
            None => forall|j: int|
                from <= j < pool.in_sending.len() ==> pool.in_sending[j] >= pool.capacity,
        },
    decreases pool.in_sending.len() - from,
{
    if from < pool.in_sending.len() && pool.in_sending[from] >= pool.capacity {
        lemma_first_free_from(pool, from + 1);
    }
}

/// A caller is admitted at the lowest position that has a permit left, and
/// there is one unless the pool is saturated.
pub proof fn lemma_first_free(pool: PoolView)
    ensures
        pool.first_free() is None <==> pool.is_saturated(),
        pool.first_free() matches Some(position) ==> pool.is_first_free(position),
        forall|position: int|
            #[trigger] pool.is_first_free(position) ==> pool.first_free() == Some(position),
{
    lemma_first_free_from(pool, 0);
    assert forall|position: int| #[trigger] pool.is_first_free(position) implies pool.first_free()
        == Some(position) by {
        match pool.first_free() {
            Some(found) => {
                if found < position {
                    assert(pool.in_sending[found] >= pool.capacity);
                }
            },
            None => {},
        }
    }
}

/// Counts that are all at most `bound` sum to at most their number times
/// `bound`, and counts that are all at least `bound` to at least that.
pub proof fn lemma_held_bounds(counts: Seq<usize>, bound: nat)
    ensures
        (forall|i: int| 0 <= i < counts.len() ==> counts[i] <= bound) ==> held_in(counts)
            <= counts.len() * bound,
        (forall|i: int| 0 <= i < counts.len() ==> counts[i] >= bound) ==> held_in(counts)
            >= counts.len() * bound,
    decreases counts.len(),
{
    if counts.len() > 0 {
        let earlier = counts.drop_last();
        lemma_held_bounds(earlier, bound);
        assert(forall|i: int| 0 <= i < earlier.len() ==> earlier[i] == counts[i]);
        assert(counts.len() * bound == earlier.len() * bound + bound) by (nonlinear_arith)
            requires
                counts.len() == earlier.len() + 1,
        ;
        if forall|i: int| 0 <= i < counts.len() ==> counts[i] <= bound {
            assert(counts.last() == counts[counts.len() - 1]);
        }
        if forall|i: int| 0 <= i < counts.len() ==> counts[i] >= bound {
            assert(counts.last() == counts[counts.len() - 1]);
        }
    } else {
        assert(counts.len() * bound == 0) by (nonlinear_arith)
            requires
                counts.len() == 0,
        ;
    }
}

/// Changing one count changes the sum by the same amount.
pub proof fn lemma_held_update(counts: Seq<usize>, position: int, count: usize)
    requires
        0 <= position < counts.len(),
    ensures
        held_in(counts.update(position, count)) == held_in(counts) - counts[position] + count,
    decreases counts.len(),
{
    let changed = counts.update(position, count);
    if position == counts.len() - 1 {
        assert(changed.drop_last() =~= counts.drop_last());
    } else {
        assert(changed.drop_last() =~= counts.drop_last().update(position, count));
        lemma_held_update(counts.drop_last(), position, count);
    }
}

/// No connection ever holds more permits than its set has: an admission
/// keeps every count within the capacity, and adds exactly one permit.
pub proof fn lemma_admission_keeps_bound(pool: PoolView)
    requires
        pool.wf(),
    ensures
        pool.after_request().wf(),
        pool.first_free() is Some && !pool.closed ==> pool.after_request().total_in_sending()
            == pool.total_in_sending() + 1,
        pool.first_free() is None || pool.closed ==> pool.after_request() == pool,
        pool.after_request().total_in_sending() <= pool.total_capacity(),
{
    lemma_first_free(pool);
    match pool.first_free() {
        Some(position) => {
            lemma_held_update(
                pool.in_sending,
                position,
                (pool.in_sending[position] + 1) as usize,
            );
        },
        None => {},
    }
    lemma_held_bounds(pool.after_request().in_sending, pool.capacity as nat);
}

/// While fewer permits are held than the pool has in all, the next caller is
/// admitted.
pub proof fn lemma_admitted_below_capacity(pool: PoolView)
    requires
        pool.wf(),
        pool.total_in_sending() < pool.total_capacity(),
    ensures
        pool.first_free() is Some,
{
    lemma_first_free(pool);
    lemma_held_bounds(pool.in_sending, pool.capacity as nat);
}

/// A pool that tells a caller to wait has given out every permit it has.
pub proof fn lemma_saturated_is_full(pool: PoolView)
    requires
        pool.wf(),
        pool.first_free() is None,
    ensures
        pool.total_in_sending() == pool.total_capacity(),
        forall|i: int| 0 <= i < pool.in_sending.len() ==> pool.in_sending[i] == pool.capacity,
{
    lemma_first_free(pool);
    lemma_held_bounds(pool.in_sending, pool.capacity as nat);
}

/// As many callers as the pool has permits left are all admitted, whatever
/// was held before: each of them finds a free position, each adds one permit,
/// and no connection goes above its bound.
pub proof fn lemma_callers_within_capacity_are_admitted(pool: PoolView, callers: nat)
    requires
        pool.wf(),
        !pool.closed,
        pool.total_in_sending() + callers <= pool.total_capacity(),
    ensures
        pool.after_requests(callers).wf(),
        !pool.after_requests(callers).closed,
        pool.after_requests(callers).total_in_sending() == pool.total_in_sending() + callers,
        pool.after_requests(callers).total_capacity() == pool.total_capacity(),
        forall|earlier: nat|
            earlier < callers ==> (#[trigger] pool.after_requests(earlier)).first_free() is Some,
    decreases callers,
{
    if callers > 0 {
        let before = pool.after_requests((callers - 1) as nat);
        lemma_callers_within_capacity_are_admitted(pool, (callers - 1) as nat);
        lemma_admitted_below_capacity(before);
        lemma_admission_keeps_bound(before);
    }
}

/// A permit that comes back frees the place it took: the pool is as it was
/// before the admission.
pub proof fn lemma_release_undoes_admission(pool: PoolView, position: int)
    requires
        pool.wf(),
        pool.first_free() == Some(position),
    ensures
        pool.admitted(position).released(position) == pool,
{
    lemma_first_free(pool);
    assert(pool.admitted(position).released(position).in_sending =~= pool.in_sending);
}

/// A release keeps every count within the capacity, and a caller who was
/// told to wait is admitted once any held permit has come back: at the
/// position that it came back to.
pub proof fn lemma_release_admits_waiter(pool: PoolView, position: int)
    requires
        pool.wf(),
        pool.holds(position),
    ensures
        pool.released(position).wf(),
        pool.released(position).total_in_sending() + 1 == pool.total_in_sending(),
        pool.first_free() is None ==> pool.released(position).first_free() == Some(position),
{
    lemma_held_update(pool.in_sending, position, (pool.in_sending[position] - 1) as usize);
    lemma_first_free(pool);
    let after = pool.released(position);
    lemma_first_free(after);
    if pool.first_free() is None {
        assert(after.in_sending[position] < pool.capacity);
        match after.first_free() {
            Some(found) => {
                if found != position {
                    assert(after.in_sending[found] == pool.in_sending[found]);
                }
            },
            None => {},
        }
    }
}

/// Whatever happens to a pool, in whatever order, no connection holds more
/// permits than its set has, the pool keeps its size and its capacity, and
/// never more permits are held than the pool has in all.
pub proof fn lemma_permits_stay_within_capacity(pool: PoolView, ops: Seq<PoolOp>)
    requires
        pool.wf(),
    ensures
        pool.apply_all(ops).wf(),
        pool.apply_all(ops).connections.len() == pool.connections.len(),
        pool.apply_all(ops).capacity == pool.capacity,
        pool.apply_all(ops).total_in_sending() <= pool.total_capacity(),
        forall|i: int|
            0 <= i < pool.connections.len() ==> pool.apply_all(ops).in_sending[i]
                <= pool.capacity,
    decreases ops.len(),
{
    if ops.len() > 0 {
        let before = pool.apply_all(ops.drop_last());
        lemma_permits_stay_within_capacity(pool, ops.drop_last());
        lemma_admission_keeps_bound(before);
        lemma_first_free(before);
    }
    lemma_held_bounds(pool.apply_all(ops).in_sending, pool.capacity as nat);
}

/// Steps of calls on one connection leave the permits, and every other
/// connection, as they are.
pub proof fn lemma_steps_keep_permits(
    pool: PoolView,
    position: int,
    session_event: SessionEvent,
    send_event: SendEvent,
)
    requires
        pool.wf(),
        0 <= position < pool.connections.len(),
    ensures
        pool.get_connection(position, session_event).0.wf(),
        pool.get_connection(position, session_event).0.in_sending == pool.in_sending,
        pool.send_transaction(position, send_event).0.wf(),
        pool.send_transaction(position, send_event).0.in_sending == pool.in_sending,
        forall|other: int|
            0 <= other < pool.connections.len() && other != position ==> {
                &&& pool.get_connection(position, session_event).0.connections[other]
                    == pool.connections[other]
                &&& pool.send_transaction(position, send_event).0.connections[other]
                    == pool.connections[other]
            },
{
}

/// Once the shutdown flag is set, no connection of the pool starts a send:
/// the call ends at its first step and the pool is as it was.
pub proof fn lemma_exit_signal_stops_every_connection(pool: PoolView, position: int)
    requires
        pool.wf(),
        0 <= position < pool.connections.len(),
    ensures
        pool.send_transaction(position, SendEvent::Requested { exit_signal: true }).0 == pool,
        pool.send_transaction(position, SendEvent::Requested { exit_signal: true }).1
            is Finish,
{
    let step = pool.send_transaction(position, SendEvent::Requested { exit_signal: true });
    assert(step.0.connections =~= pool.connections);
}

} // verus!
