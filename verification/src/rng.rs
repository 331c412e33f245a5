//! The world's pseudo-random source. Material behaviors take their random
//! draws as plain values from an explicitly owned, seedable generator, so a
//! fixed seed makes whole simulation runs reproducible. The raw draws come
//! from an outside generator; the range-shaping around them is verified for
//! every value the generator could hand back.

use vstd::prelude::*;

verus! {

#[verifier::external_type_specification]
#[verifier::external_body]
pub struct ExStdRng(rand::rngs::StdRng);

/// A seedable deterministic generator owned by the grid store.
pub struct SimRng {
    inner: rand::rngs::StdRng,
}

impl SimRng {
    /// Relies on rand::SeedableRng::seed_from_u64: builds a generator whose
    /// output stream depends on the seed alone.
    #[verifier::external_body]
    pub fn new(seed: u64) -> SimRng {
        SimRng { inner: rand::SeedableRng::seed_from_u64(seed) }
    }

    /// Relies on rand::Rng::gen: draws the generator's next 32-bit value;
    /// nothing is promised of it.
    #[verifier::external_body]
    fn next_raw(&mut self) -> u32 {
        rand::Rng::gen(&mut self.inner)
    }

    /// An even-or-odd draw; every raw value yields a definite answer, but no
    /// particular one is promised.
    pub fn coin(&mut self) -> bool {
        self.next_raw() % 2 == 0
    }

    /// The horizontal preference water draws each tick.
    pub fn spread_dir(&mut self) -> (d: i32)
        ensures
            -2 <= d <= 1,
    {
        (self.next_raw() % 4) as i32 - 2
    }

    /// An index into a non-empty collection.
    pub fn pick_index(&mut self, n: usize) -> (i: usize)
        requires
            n >= 1,
        ensures
            i < n,
    {
        (self.next_raw() as usize) % n
    }
}

} // verus!
