//! The random source the generator and the mutations draw from. The library
//! never reads process-wide randomness: the caller seeds a source and hands it
//! in, and every operation advances only that source.

use vstd::prelude::*;

verus! {

/// What the generator and the mutations require of a random source: a draw
/// below a positive bound stays below the bound.
pub trait RandomSource {
    /// Draws a value in `[0, bound)`.
    fn below(&mut self, bound: u64) -> (r: u64)
        requires
            bound > 0,
        ensures
            r < bound,
    ;
}

/// One xorshift step from a state, first moving a zero state off the orbit
/// that never leaves zero. Equal states step to equal draws, so equal seeds
/// give equal draw sequences.
pub open spec fn spec_xorshift(state: u64) -> u64 {
    let s = if state == 0 {
        0x9e3779b97f4a7c15u64
    } else {
        state
    };
    let a = s ^ (s << 13);
    let b = a ^ (a >> 7);
    b ^ (b << 17)
}

/// A small deterministic xorshift random source.
pub struct Rng {
    /// The current state; the next draw is `spec_xorshift` of it.
    pub state: u64,
}

impl Rng {
    /// Seeds the source. Equal seeds give equal draw sequences.
    pub fn with_seed(seed: u64) -> (r: Rng)
        ensures
            r.state == seed,
    {
        Rng { state: seed }
    }

    /// Advances the state and returns the next raw 64-bit draw.
    pub fn next_u64(&mut self) -> (r: u64)
        ensures
            r == spec_xorshift(old(self).state),
            final(self).state == r,
    {
        let mut x = self.state;
        if x == 0 {
            // the xorshift orbit never leaves zero, so step off it
            x = 0x9e3779b97f4a7c15;
        }
        x = x ^ (x << 13);
        x = x ^ (x >> 7);
        x = x ^ (x << 17);
        self.state = x;
        x
    }
}

impl RandomSource for Rng {
    fn below(&mut self, bound: u64) -> (r: u64)
        ensures
            r == spec_xorshift(old(self).state) % bound,
            final(self).state == spec_xorshift(old(self).state),
    {
        self.next_u64() % bound
    }
}

} // verus!
