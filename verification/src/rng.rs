//! Randomness as an explicit collaborator: a uniform draw over a bounded
//! index range, either seeded and reproducible or backed by the process's
//! entropy source.

use vstd::prelude::*;

verus! {

/// A uniform random draw over `0..bound`. The engine takes its source of
/// randomness through this trait, so that a seeded source makes a whole
/// search reproducible.
pub trait RandomSource: Sized {
    /// Draws an index below `bound`.
    fn next_below(&mut self, bound: usize) -> (r: usize)
        requires
            bound >= 1,
        ensures
            r < bound,
    ;
}

/// A small deterministic generator: a 64-bit linear congruential step,
/// returning the high bits. Two sources built from the same seed yield the
/// same draws in the same order.
#[derive(Debug, Clone, Copy)]
pub struct SeededRng {
    state: u64,
}

impl SeededRng {
    pub fn new(seed: u64) -> SeededRng {
        SeededRng { state: seed }
    }
}

impl RandomSource for SeededRng {
    fn next_below(&mut self, bound: usize) -> (r: usize)
    {
        self.state = self.state.wrapping_mul(6364136223846793005).wrapping_add(1442695040888963407);
        let st = self.state;
        let hi = st >> 33;
        assert(hi < 0x8000_0000) by (bit_vector)
            requires
                hi == st >> 33u64,
        ;
        (hi as usize) % bound
    }
}

/// Relies on rand's `Rng::gen_range` over `0..bound`: a draw from a
/// non-empty half-open range lies below its upper bound.
#[verifier::external_body]
pub(crate) fn draw_below(bound: usize) -> (r: usize)
    requires
        bound >= 1,
    ensures
        r < bound,
{
    rand::Rng::gen_range(&mut rand::thread_rng(), 0..bound)
}

/// A draw backed by the thread-local entropy generator of the rand crate.
/// Nothing is promised of its outcomes beyond the bound.
pub struct EntropyRandom;

impl RandomSource for EntropyRandom {
    fn next_below(&mut self, bound: usize) -> (r: usize)
    {
        draw_below(bound)
    }
}

} // verus!
