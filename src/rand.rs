//! A deterministic, seeded source of random numbers.

use vstd::prelude::*;

use rand::RngCore;
use rand::SeedableRng;

verus! {

/// The `n`-th 32-bit value (counted from 0) of the `rand_pcg::Pcg64`
/// generator seeded with `seed`.
pub uninterp spec fn pcg64_u32_at(seed: u64, n: u128) -> u32;

/// Relies on `rand_core::SeedableRng::seed_from_u64`, `Lcg128Xsl64::advance`
/// and `rand_core::RngCore::next_u32` for `rand_pcg::Pcg64`: the generator is
/// reproducible from its seed, and advancing it by `n` steps is the same as
/// drawing `n` values, so the result depends on `seed` and `n` alone.
#[verifier::external_body]
fn pcg_u32_at(seed: u64, n: u128) -> (r: u32)
    ensures
        r == pcg64_u32_at(seed, n),
{
    let mut g = rand_pcg::Pcg64::seed_from_u64(seed);
    g.advance(n);
    g.next_u32()
}

/// The seed of the source that [`RandomSource::new`] builds.
pub const DEFAULT_SEED: u64 = 0;

/// The count of values drawn after `n`: one more, wrapping round after
/// `u128::MAX`, as the generator's period does.
pub open spec fn next_count(n: u128) -> u128 {
    if n == u128::MAX {
        0
    } else {
        (n + 1) as u128
    }
}

/// A seeded pseudo-random generator; the same seed gives the same sequence.
#[derive(Debug)]
pub struct RandomSource {
    seed: u64,
    drawn: u128,
}

impl RandomSource {
    /// The seed of the generator.
    pub closed spec fn seed_of(&self) -> u64 {
        self.seed
    }

    /// How many values have been drawn so far.
    pub closed spec fn drawn_of(&self) -> u128 {
        self.drawn
    }

    /// The value that the next draw hands out.
    pub open spec fn next_value(&self) -> u32 {
        pcg64_u32_at(self.seed_of(), self.drawn_of())
    }

    /// A source seeded with [`DEFAULT_SEED`].
    pub fn new() -> (s: RandomSource)
        ensures
            s.seed_of() == DEFAULT_SEED,
            s.drawn_of() == 0,
    {
        RandomSource::with_seed(DEFAULT_SEED)
    }

    /// A source seeded with `seed`.
    pub fn with_seed(seed: u64) -> (s: RandomSource)
        ensures
            s.seed_of() == seed,
            s.drawn_of() == 0,
    {
        RandomSource { seed, drawn: 0 }
    }
}

/// The next 32-bit value of the source.
pub fn rand32(source: &mut RandomSource) -> (r: u32)
    ensures
        r == old(source).next_value(),
        final(source).seed_of() == old(source).seed_of(),
        final(source).drawn_of() == next_count(old(source).drawn_of()),
{
    let r = pcg_u32_at(source.seed, source.drawn);
    source.drawn = source.drawn.wrapping_add(1);
    r
}

} // verus!
