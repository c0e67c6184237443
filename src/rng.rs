use vstd::prelude::*;
use rand::Rng;
use rand::SeedableRng;
use rand_xoshiro::Xoshiro256PlusPlus;

verus! {

#[verifier::external_type_specification]
#[verifier::external_body]
pub struct ExXoshiro256PlusPlus(Xoshiro256PlusPlus);

/// The value that a `Xoshiro256PlusPlus` generator seeded with `seed` returns
/// from `random_range` on the last of `ranges`, after having been drawn on
/// the earlier ones in order. It depends on these arguments alone.
pub uninterp spec fn seeded_draw(seed: u64, ranges: Seq<(i32, i32)>) -> i32;

/// A seeded generator, with its seed and the ranges drawn from it so far.
pub struct SeededRng {
    inner: Xoshiro256PlusPlus,
    seed: Ghost<u64>,
    drawn: Ghost<Seq<(i32, i32)>>,
}

impl SeededRng {
    pub closed spec fn seed(&self) -> u64 {
        self.seed@
    }

    pub closed spec fn drawn(&self) -> Seq<(i32, i32)> {
        self.drawn@
    }

    /// Relies on `SeedableRng::seed_from_u64` for `Xoshiro256PlusPlus`: a
    /// generator whose whole state is derived from the seed.
    #[verifier::external_body]
    pub fn new(seed: u64) -> (r: SeededRng)
        ensures
            r.seed() == seed,
            r.drawn() == Seq::<(i32, i32)>::empty(),
    {
        SeededRng { inner: Xoshiro256PlusPlus::seed_from_u64(seed), seed: Ghost(seed), drawn: Ghost(Seq::empty()) }
    }

    /// Relies on `rand::Rng::random_range` on a half-open `i32` range: it
    /// returns a value in `lo..hi`, determined by the generator's state, and
    /// panics only when the range is empty.
    #[verifier::external_body]
    pub fn draw(&mut self, lo: i32, hi: i32) -> (r: i32)
        requires
            lo < hi,
        ensures
            final(self).seed() == old(self).seed(),
            final(self).drawn() == old(self).drawn().push((lo, hi)),
            r == seeded_draw(old(self).seed(), final(self).drawn()),
            lo <= r < hi,
    {
        let r = self.inner.random_range(lo..hi);
        self.drawn = Ghost(self.drawn@.push((lo, hi)));
        r
    }
}

} // verus!
