//! Many callers on one connection, taking their steps in any order.
//!
//! Each caller follows the actions that it is given: it asks, waits where it
//! is told to, connects where it is told to and reports what the transport
//! brought. A schedule says whose turn it is, step by step, and what the
//! transport answers if that caller is connecting.
use crate::connection::{ConnectionView, SessionAction, SessionEvent};
use vstd::prelude::*;

verus! {

/// Where a caller stands in its call for a usable session.
pub enum Caller {
    /// It has not asked yet.
    Idle,
    /// It was told to wait.
    Waiting { observed: Option<u64> },
    /// It was told to establish the first session.
    Connecting,
    /// It was told to replace the suspected session.
    Reconnecting,
    /// Its call is over, with this session or with none.
    Done(Option<u64>),
}

/// What becomes of an attempt to establish a session.
pub enum Attempt {
    /// The transport answered, with a session or with none.
    Answered(Option<u64>),
    /// The caller gave up before the transport answered.
    GaveUp,
}

/// One turn of a schedule: the caller whose turn it is, and what becomes of
/// its attempt if it is establishing a session.
pub struct Turn {
    pub caller: int,
    pub attempt: Attempt,
}

/// A connection and the callers on it.
pub struct Callers {
    pub connection: ConnectionView,
    pub callers: Seq<Caller>,
    /// How often a caller has been told to connect or reconnect.
    pub connects: nat,
}

impl Caller {
    /// The caller was told to establish a session and has not reported back.
    pub open spec fn is_establishing(self) -> bool {
        self is Connecting || self is Reconnecting
    }

    /// What the caller reports when it is its turn, if its call is not over.
    pub open spec fn event(self, attempt: Attempt) -> Option<SessionEvent> {
        match self {
            Caller::Idle => Some(SessionEvent::Requested),
            Caller::Waiting { observed } => Some(SessionEvent::Resumed { observed }),
            Caller::Connecting => Some(
                match attempt {
                    Attempt::Answered(session) => SessionEvent::Connected { session },
                    Attempt::GaveUp => SessionEvent::Abandoned,
                },
            ),
            Caller::Reconnecting => Some(
                match attempt {
                    Attempt::Answered(session) => SessionEvent::Reconnected { session },
                    Attempt::GaveUp => SessionEvent::Abandoned,
                },
            ),
            Caller::Done(_) => None,
        }
    }

    /// Where the caller stands once it has been given the action.
    pub open spec fn given(action: SessionAction) -> Caller {
        match action {
            SessionAction::Return(session) => Caller::Done(session),
            SessionAction::Wait { observed } => Caller::Waiting { observed },
            SessionAction::Connect(_) => Caller::Connecting,
            SessionAction::Reconnect(_) => Caller::Reconnecting,
        }
    }
}

impl Callers {
    /// One turn: the caller reports, the connection takes the step, and the
    /// caller goes on as the action says. A caller whose call is over, or who
    /// is not there, changes nothing.
    pub open spec fn step(self, turn: Turn) -> Callers {
        if 0 <= turn.caller < self.callers.len() {
            match self.callers[turn.caller].event(turn.attempt) {
                None => self,
                Some(event) => {
                    let (next, action) = self.connection.get_connection(event);
                    Callers {
                        connection: next,
                        callers: self.callers.update(turn.caller, Caller::given(action)),
                        connects: self.connects + if action is Connect || action is Reconnect {
                            1nat
                        } else {
                            0nat
                        },
                    }
                },
            }
        } else {
            self
        }
    }

    /// The turns of a schedule, first to last.
    pub open spec fn run(self, schedule: Seq<Turn>) -> Callers
        decreases schedule.len(),
    {
        if schedule.len() == 0 {
            self
        } else {
            self.run(schedule.drop_last()).step(schedule.last())
        }
    }

    /// At most one caller is establishing a session, and the connection
    /// knows whether one is.
    pub open spec fn exclusive(self) -> bool {
        &&& forall|i: int, j: int|
            0 <= i < self.callers.len() && 0 <= j < self.callers.len()
                && self.callers[i].is_establishing() && self.callers[j].is_establishing() ==> i
                == j
        &&& self.connection.connecting <==> exists|i: int|
            0 <= i < self.callers.len() && self.callers[i].is_establishing()
    }

    /// Nobody has asked yet and nobody is connecting.
    pub open spec fn at_start(self) -> bool {
        &&& !self.connection.connecting
        &&& self.connects == 0
        &&& forall|i: int| 0 <= i < self.callers.len() ==> self.callers[i] is Idle
    }

    /// What holds all through the replacement of the suspected session `id`,
    /// as long as every attempt brings a session other than `id`: before the
    /// reconnect nobody is done; during it one caller reconnects and the
    /// others have not asked or wait; after it a session other than `id` is
    /// installed and whoever is done was handed such a session.
    pub open spec fn replacing(self, id: u64) -> bool {
        &&& self.connection.last_stable_id == id
        &&& self.connects <= 1
        &&& if self.connects == 0 {
            &&& self.connection.session == Some(id)
            &&& !self.connection.connecting
            &&& forall|i: int| 0 <= i < self.callers.len() ==> self.callers[i].is_behind(id)
        } else if self.connection.connecting {
            &&& self.connection.session == Some(id)
            &&& exists|j: int|
                0 <= j < self.callers.len() && self.callers[j] is Reconnecting && forall|i: int|
                    0 <= i < self.callers.len() && i != j ==> self.callers[i].is_behind(id)
        } else {
            &&& self.connection.session is Some
            &&& self.connection.session != Some(id)
            &&& forall|i: int|
                0 <= i < self.callers.len() ==> self.callers[i].is_behind(id)
                    || self.callers[i].is_served(id)
        }
    }
}

impl Caller {
    /// The caller has not asked yet, or waits on account of the session `id`.
    pub open spec fn is_behind(self, id: u64) -> bool {
        self is Idle || self == (Caller::Waiting { observed: Some(id) })
    }

    /// The caller was handed a session other than `id`.
    pub open spec fn is_served(self, id: u64) -> bool {
        self matches Caller::Done(Some(session)) && session != id
    }
}

impl Callers {
    /// Whoever has seen a session, and the connection if one is installed,
    /// knows that the connection has connected once.
    pub open spec fn sessions_follow_connects(self) -> bool {
        &&& self.connection.session is Some ==> self.connection.has_connected_once
        &&& forall|i: int|
            0 <= i < self.callers.len() && (self.callers[i] is Reconnecting
                || self.callers[i] matches Caller::Waiting { observed: Some(_) })
                ==> self.connection.has_connected_once
    }
}

impl Turn {
    /// The attempt, if this turn ends one, brings a session other than `id`.
    pub open spec fn brings_other_than(self, id: u64) -> bool {
        self.attempt matches Attempt::Answered(Some(session)) && session != id
    }
}

/// One turn keeps the callers exclusive.
pub proof fn lemma_exclusive_step(callers: Callers, turn: Turn)
    requires
        callers.exclusive(),
    ensures
        callers.step(turn).exclusive(),
{
    let after = callers.step(turn);
    let who = turn.caller;
    if 0 <= who < callers.callers.len() && callers.callers[who].event(turn.attempt) is Some {
        let event = callers.callers[who].event(turn.attempt)->Some_0;
        let (next, action) = callers.connection.get_connection(event);
        assert(after.callers[who] == Caller::given(action));
        assert forall|i: int| 0 <= i < after.callers.len() && i != who implies after.callers[i]
            == callers.callers[i] by {}
        if callers.callers[who].is_establishing() {
            // The one who was at it reports back: nobody is at it any more.
            assert(callers.connection.connecting);
            assert(!next.connecting);
            assert forall|i: int| 0 <= i < after.callers.len() implies !after.callers[i]
                .is_establishing() by {
                if i != who {
                    assert(after.callers[i] == callers.callers[i]);
                }
            }
        } else if action is Connect || action is Reconnect {
            // Nobody was at it, and now this caller is.
            assert(!callers.connection.connecting);
            assert(after.callers[who].is_establishing());
            assert forall|i: int, j: int|
                0 <= i < after.callers.len() && 0 <= j < after.callers.len()
                    && after.callers[i].is_establishing()
                    && after.callers[j].is_establishing() implies i == j by {
                if i != who {
                    assert(callers.callers[i].is_establishing());
                }
                if j != who {
                    assert(callers.callers[j].is_establishing());
                }
            }
        } else {
            // The caller waits or is done: who is at it stays at it.
            assert(next == callers.connection);
            assert(!after.callers[who].is_establishing());
            if callers.connection.connecting {
                let at_it = choose|i: int|
                    0 <= i < callers.callers.len() && callers.callers[i].is_establishing();
                assert(after.callers[at_it].is_establishing());
            }
            assert forall|i: int|
                0 <= i < after.callers.len() && after.callers[i].is_establishing() implies
                callers.callers[i].is_establishing() by {}
        }
    }
}

/// However the callers take their turns, at most one of them is ever
/// establishing a session.
pub proof fn lemma_one_caller_connects_at_a_time(callers: Callers, schedule: Seq<Turn>)
    requires
        callers.exclusive(),
    ensures
        callers.run(schedule).exclusive(),
    decreases schedule.len(),
{
    if schedule.len() > 0 {
        lemma_one_caller_connects_at_a_time(callers, schedule.drop_last());
        lemma_exclusive_step(callers.run(schedule.drop_last()), schedule.last());
    }
}

/// Callers who have not asked yet, on a connection where nobody connects,
/// are exclusive.
pub proof fn lemma_start_is_exclusive(callers: Callers)
    requires
        callers.at_start(),
    ensures
        callers.exclusive(),
{
}

/// A session is only ever installed on a connection that has connected once:
/// on a connection that starts without a session, whatever the callers and
/// the transport do, a session is installed only after a first connect has
/// come back. So a connection that has never connected holds no session.
pub proof fn lemma_session_implies_connected_once(callers: Callers, schedule: Seq<Turn>)
    requires
        callers.sessions_follow_connects(),
    ensures
        callers.run(schedule).sessions_follow_connects(),
        callers.run(schedule).connection.session is Some ==> callers.run(
            schedule,
        ).connection.has_connected_once,
    decreases schedule.len(),
{
    if schedule.len() > 0 {
        let before = callers.run(schedule.drop_last());
        let turn = schedule.last();
        lemma_session_implies_connected_once(callers, schedule.drop_last());
        let after = before.step(turn);
        if 0 <= turn.caller < before.callers.len() && before.callers[turn.caller].event(
            turn.attempt,
        ) is Some {
            assert forall|i: int|
                0 <= i < after.callers.len() && (after.callers[i] is Reconnecting
                    || after.callers[i] matches Caller::Waiting {
                    observed: Some(_),
                }) implies after.connection.has_connected_once by {
                if i != turn.caller {
                    assert(after.callers[i] == before.callers[i]);
                }
            }
        }
    }
}

/// One turn keeps the replacement of the session `id` on its course.
pub proof fn lemma_replacing_step(callers: Callers, id: u64, turn: Turn)
    requires
        callers.replacing(id),
        turn.brings_other_than(id),
    ensures
        callers.step(turn).replacing(id),
{
    let after = callers.step(turn);
    let who = turn.caller;
    if 0 <= who < callers.callers.len() && callers.callers[who].event(turn.attempt) is Some {
        let event = callers.callers[who].event(turn.attempt)->Some_0;
        let (next, action) = callers.connection.get_connection(event);
        assert(after.callers[who] == Caller::given(action));
        assert forall|i: int| 0 <= i < after.callers.len() && i != who implies after.callers[i]
            == callers.callers[i] by {}
        if callers.connects == 0 {
            // The first to ask is told to reconnect.
            assert(callers.callers[who].is_behind(id));
            assert(action is Reconnect);
            assert(after.callers[who] is Reconnecting);
        } else if callers.connection.connecting {
            let at_it = choose|j: int|
                0 <= j < callers.callers.len() && callers.callers[j] is Reconnecting && forall|
                    i: int,
                | 0 <= i < callers.callers.len() && i != j ==> callers.callers[i].is_behind(id);
            if who == at_it {
                assert(after.callers[who].is_served(id));
                assert forall|i: int| 0 <= i < after.callers.len() implies after.callers[i]
                    .is_behind(id) || after.callers[i].is_served(id) by {
                    if i != who {
                        assert(callers.callers[i].is_behind(id));
                    }
                }
            } else {
                assert(callers.callers[who].is_behind(id));
                assert(action == SessionAction::Wait { observed: Some(id) });
                assert(after.callers[at_it] is Reconnecting);
                assert forall|i: int|
                    0 <= i < after.callers.len() && i != at_it implies after.callers[i].is_behind(
                    id,
                ) by {
                    if i != who {
                        assert(callers.callers[i].is_behind(id));
                    }
                }
            }
        } else {
            assert(callers.callers[who].is_behind(id));
            assert(action == SessionAction::Return(callers.connection.session));
            assert(after.callers[who].is_served(id));
        }
    }
}

/// One staleness episode costs one reconnect, however many callers see it
/// and in whatever order they take their turns.
///
/// The installed session `id` is the suspected one, nobody is connecting and
/// nobody has asked yet. Every attempt to establish a session brings one
/// other than `id`. Then, after any schedule, at most one caller was told to
/// reconnect and none to connect, and every caller whose call is over was
/// handed a session other than `id`, for which exactly one reconnect was
/// made.
pub proof fn lemma_one_reconnect_per_episode(callers: Callers, id: u64, schedule: Seq<Turn>)
    requires
        callers.at_start(),
        callers.connection.session == Some(id),
        callers.connection.last_stable_id == id,
        forall|k: int| 0 <= k < schedule.len() ==> (#[trigger] schedule[k]).brings_other_than(id),
    ensures
        callers.run(schedule).replacing(id),
        callers.run(schedule).connects <= 1,
        forall|i: int|
            0 <= i < callers.run(schedule).callers.len() && callers.run(schedule).callers[i]
                is Done ==> callers.run(schedule).callers[i].is_served(id) && callers.run(
                schedule,
            ).connects == 1,
    decreases schedule.len(),
{
    if schedule.len() > 0 {
        let earlier = schedule.drop_last();
        assert forall|k: int| 0 <= k < earlier.len() implies (#[trigger] earlier[k])
            .brings_other_than(id) by {
            assert(earlier[k] == schedule[k]);
        }
        lemma_one_reconnect_per_episode(callers, id, earlier);
        assert(schedule.last() == schedule[schedule.len() - 1]);
        lemma_replacing_step(callers.run(earlier), id, schedule.last());
    }
    let end = callers.run(schedule);
    assert forall|i: int| 0 <= i < end.callers.len() && end.callers[i] is Done implies end.callers[i]
        .is_served(id) && end.connects == 1 by {
        if end.connects == 0 || end.connection.connecting {
            if end.connects != 0 {
                let at_it = choose|j: int|
                    0 <= j < end.callers.len() && end.callers[j] is Reconnecting && forall|i: int|
                        0 <= i < end.callers.len() && i != j ==> end.callers[i].is_behind(id);
                assert(i != at_it);
            }
            assert(end.callers[i].is_behind(id));
        }
    }
}

} // verus!
