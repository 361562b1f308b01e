//! The deterministic pseudo-random stream that drives every shuffle and
//! wheel spin. It is a fixed xorshift variant over a 64-bit state that is
//! never zero; bank-side replay and player-side execution agree because this
//! exact update function is used by both.

use vstd::prelude::*;

verus! {

/// The state an all-zero seed is remapped to, so the xorshift stream never
/// collapses to the constant zero sequence.
pub const SEED_FALLBACK: u64 = 0x9e3779b185ebca87;

/// What `SimpleRng::new` stores for a given seed.
pub open spec fn seed_of(seed: u64) -> u64 {
    if seed == 0 {
        SEED_FALLBACK
    } else {
        seed
    }
}

/// One step of the xorshift stream: `x ^= x<<7; x ^= x>>9; x ^= x<<8`.
pub open spec fn next_of(state: u64) -> u64 {
    (((state ^ (state << 7)) ^ ((state ^ (state << 7)) >> 9)) ^ (((state ^ (state << 7))
        ^ ((state ^ (state << 7)) >> 9)) << 8)) as u64
}

/// Deterministic xorshift generator; both sides of the protocol reproduce the
/// same draws from the same seed.
pub struct SimpleRng {
    state: u64,
}

impl SimpleRng {
    /// The current 64-bit state.
    pub closed spec fn view(&self) -> u64 {
        self.state
    }

    pub fn new(seed: u64) -> (r: SimpleRng)
        ensures
            r@ == seed_of(seed),
    {
        let state = if seed == 0 {
            SEED_FALLBACK
        } else {
            seed
        };
        SimpleRng { state }
    }

    pub fn next(&mut self) -> (r: u64)
        ensures
            final(self)@ == next_of(old(self)@),
            r == final(self)@,
    {
        let mut value = self.state;
        value ^= value << 7;
        value ^= value >> 9;
        value ^= value << 8;
        self.state = value;
        value
    }
}

} // verus!
