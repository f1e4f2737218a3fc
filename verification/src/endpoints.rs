//! The rotating supply of local endpoints.
//!
//! The driver owns the endpoints themselves; this supply hands out their
//! positions, one after the other and then from the start again, so that the
//! connections built from it are spread over all of them.
use vstd::prelude::*;

verus! {

/// The state of a supply as the contracts see it.
pub struct EndpointsView {
    /// How many endpoints there are.
    pub size: nat,
    /// The position that the next draw hands out.
    pub current: nat,
}

impl EndpointsView {
    /// The position handed out by the draw that follows `draws` earlier ones.
    pub open spec fn nth(self, draws: nat) -> nat
        recommends
            self.size > 0,
    {
        (self.current + draws) % self.size
    }

    /// The next position is one of the endpoints.
    pub open spec fn wf(self) -> bool {
        self.current < self.size || (self.size == 0 && self.current == 0)
    }

    /// The supply after `draws` draws.
    pub open spec fn advanced(self, draws: nat) -> EndpointsView {
        if self.size == 0 {
            self
        } else {
            EndpointsView { size: self.size, current: self.nth(draws) }
        }
    }
}

/// A rotating supply of endpoint positions.
#[derive(Debug)]
pub struct EndpointPool {
    size: usize,
    current: usize,
}

impl View for EndpointPool {
    type V = EndpointsView;

    closed spec fn view(&self) -> EndpointsView {
        EndpointsView { size: self.size as nat, current: self.current as nat }
    }
}

impl EndpointPool {
    #[verifier::type_invariant]
    spec fn in_range(self) -> bool {
        self.current < self.size || (self.size == 0 && self.current == 0)
    }

    /// A supply of `size` endpoints that starts at the first.
    pub fn new(size: usize) -> (pool: Self)
        ensures
            pool@ == (EndpointsView { size: size as nat, current: 0 }),
            pool@.wf(),
    {
        EndpointPool { size, current: 0 }
    }

    /// How many endpoints there are.
    pub fn len(&self) -> (size: usize)
        ensures
            size == self@.size,
            self@.wf(),
    {
        proof {
            use_type_invariant(self);
        }
        self.size
    }

    /// Draws the next endpoint: none from an empty supply, else the current
    /// position, and the supply moves on by one.
    pub fn get(&mut self) -> (endpoint: Option<usize>)
        ensures
            old(self)@.size == 0 ==> endpoint is None && final(self)@ == old(self)@,
            old(self)@.size > 0 ==> endpoint == Some(old(self)@.current as usize) && final(self)@
                == old(self)@.advanced(1),
            old(self)@.wf(),
            final(self)@.wf(),
    {
        proof {
            use_type_invariant(&*self);
        }
        if self.size == 0 {
            None
        } else {
            let drawn: usize = self.current;
            assert((drawn + 1) % (self.size as int) == if drawn + 1 == self.size {
                0
            } else {
                drawn + 1
            }) by {
                if drawn + 1 == self.size {
                    vstd::arithmetic::div_mod::lemma_mod_self_0(self.size as int);
                } else {
                    vstd::arithmetic::div_mod::lemma_small_mod((drawn + 1) as nat, self.size as nat);
                }
            }
            self.current = if drawn + 1 == self.size {
                0
            } else {
                drawn + 1
            };
            Some(drawn)
        }
    }
}

} // verus!
