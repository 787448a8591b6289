//! A linear congruential generator of pseudo-random numbers.
use vstd::prelude::*;

verus! {

/// The multiplier of the generator.
pub const RAND_MUL: usize = 56394237;

/// The increment of the generator.
pub const RAND_INC: usize = 34642349;

/// The modulus of the generator.
pub const RAND_MODULO: usize = 25964951;

/// The state that follows `cur`.
pub open spec fn next_state(cur: nat) -> nat {
    (cur * RAND_MUL + RAND_INC) as nat % (RAND_MODULO as nat)
}

/// A generator: its current state and its three constants.
pub struct RandGen {
    cur: usize,
    mul: usize,
    inc: usize,
    modulo: usize,
}

impl RandGen {
    /// The current state.
    pub closed spec fn state(&self) -> nat {
        self.cur as nat
    }

    /// The constants are the generator's own.
    pub closed spec fn wf(&self) -> bool {
        self.mul == RAND_MUL && self.inc == RAND_INC && self.modulo == RAND_MODULO
    }

    /// A generator whose state starts at `cur`.
    pub fn new(cur: usize) -> (r: Self)
        ensures
            r.wf(),
            r.state() == cur,
    {
        Self { cur, mul: RAND_MUL, inc: RAND_INC, modulo: RAND_MODULO }
    }

    /// The current state.
    pub fn current(&self) -> (r: usize)
        ensures
            r == self.state(),
    {
        self.cur
    }

    /// Steps the state and returns it reduced below `max`.
    pub fn next_v(&mut self, max: usize) -> (r: usize)
        requires
            old(self).wf(),
            max > 0,
            old(self).state() * RAND_MUL + RAND_INC <= usize::MAX,
        ensures
            final(self).wf(),
            final(self).state() == next_state(old(self).state()),
            final(self).state() < RAND_MODULO,
            r == final(self).state() % (max as nat),
    {
        assert(self.cur * self.mul + self.inc <= usize::MAX);
        assert(self.cur * self.mul <= usize::MAX) by (nonlinear_arith)
            requires
                self.cur * self.mul + self.inc <= usize::MAX,
                self.inc >= 0,
        ;
        self.cur = (self.cur * self.mul + self.inc) % self.modulo;
        self.cur % max
    }
}

} // verus!
