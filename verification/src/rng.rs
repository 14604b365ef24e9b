//! The xorshift64* pseudo-random generator that seeds a universe. Its
//! outputs depend on the seed alone, so a seed names the same sequence on
//! every machine.

use vstd::prelude::*;

verus! {

/// Added to the seed, with wrap-around, to give the first state.
pub const SEED_OFFSET: u64 = 0x9E3779B97F4A7C15;

/// What a state is multiplied by, with wrap-around, to give an output.
pub const MULTIPLIER: u64 = 2685821657736338717;

/// One step of the generator: three shifts, each combined with the state by
/// exclusive or. Bits shifted out on the left are lost.
pub open spec fn advance(state: u64) -> u64 {
    let a: u64 = state ^ (state >> 12);
    let b: u64 = a ^ (a << 25);
    b ^ (b >> 27)
}

/// The number drawn from a state that has just been advanced.
pub open spec fn output(state: u64) -> u64 {
    state.wrapping_mul(MULTIPLIER)
}

/// The state of a generator started from `seed` after `draws` draws.
pub open spec fn state_after(seed: u64, draws: nat) -> u64
    decreases draws,
{
    if draws == 0 {
        seed.wrapping_add(SEED_OFFSET)
    } else {
        advance(state_after(seed, (draws - 1) as nat))
    }
}

/// The `n`-th number, counted from zero, drawn from a generator started from
/// `seed`.
pub open spec fn nth_output(seed: u64, n: nat) -> u64 {
    output(state_after(seed, n + 1))
}

/// The lowest bit of the `n`-th number: the state of the `n`-th cell of a
/// seeded universe.
pub open spec fn nth_bit(seed: u64, n: nat) -> bool {
    nth_output(seed, n) & 1 == 1
}

/// A xorshift64* generator.
pub struct Xorshift64Star {
    state: u64,
}

impl View for Xorshift64Star {
    type V = u64;

    /// The generator's state.
    closed spec fn view(&self) -> u64 {
        self.state
    }
}

impl Xorshift64Star {
    /// A generator started from `seed`.
    pub fn new(seed: u64) -> (generator: Xorshift64Star)
        ensures
            generator@ == state_after(seed, 0),
    {
        Xorshift64Star { state: seed.wrapping_add(SEED_OFFSET) }
    }

    /// Advances the generator and draws the next number.
    pub fn next_u64(&mut self) -> (drawn: u64)
        ensures
            final(self)@ == advance(old(self)@),
            drawn == output(final(self)@),
    {
        let mut u: u64 = self.state;
        u ^= u >> 12;
        u ^= u << 25;
        u ^= u >> 27;
        self.state = u;
        u.wrapping_mul(MULTIPLIER)
    }
}

} // verus!
