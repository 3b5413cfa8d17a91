//! The injected random source of the covering generator: a seedable stream
//! of bounded draws.
//!
//! The generator behind it is a ChaCha12 keystream, a pure function of its
//! seed, read through rand's uniform-range sampling, a pure function of the
//! keystream and the requested bound.  A draw is therefore determined by the
//! seed, by the bounds of the draws made before it, and by its own bound;
//! `rng_draw` names that value, which is what makes sampling with a fixed
//! seed provably deterministic.

use vstd::prelude::*;

verus! {

#[verifier::external_type_specification]
#[verifier::external_body]
pub struct ExChaCha12Rng(chacha20::ChaCha12Rng);

/// The value drawn from a ChaCha12 stream seeded with `seed` — after earlier
/// draws whose bounds were `history`, in order — when asked for a value
/// below `bound`.
///
/// This is a pure function of its arguments: the keystream depends only on
/// the seed, and each uniform draw consumes an amount of it determined by
/// the draw's bound.
pub uninterp spec fn rng_draw(seed: u64, history: Seq<u64>, bound: u64) -> u64;

/// A seedable random source handing out uniform values below a caller-given
/// bound.  Ghost state records the seed and the bounds of all draws made so
/// far, so contracts can name each drawn value via `rng_draw`.
pub struct SeededRng {
    rng: chacha20::ChaCha12Rng,
    seed: Ghost<u64>,
    history: Ghost<Seq<u64>>,
}

impl SeededRng {
    /// The seed this source was created from.
    pub closed spec fn seed(self) -> u64 {
        self.seed@
    }

    /// The bounds of the draws made so far, in order.
    pub closed spec fn history(self) -> Seq<u64> {
        self.history@
    }

    /// Builds the generator for `new`.
    ///
    /// Relies on `rand_core::SeedableRng::seed_from_u64` for
    /// `chacha20::ChaCha12Rng`: expands the 64-bit seed into a ChaCha12 key,
    /// a fixed algorithm with no other input.
    #[verifier::external_body]
    fn chacha_from_seed(seed: u64) -> chacha20::ChaCha12Rng {
        <chacha20::ChaCha12Rng as rand::SeedableRng>::seed_from_u64(seed)
    }

    /// A fresh source seeded with `seed`; no draws have been made yet.
    pub fn new(seed: u64) -> (r: SeededRng)
        ensures
            r.seed() == seed,
            r.history() == Seq::<u64>::empty(),
    {
        SeededRng {
            rng: Self::chacha_from_seed(seed),
            seed: Ghost(seed),
            history: Ghost(Seq::empty()),
        }
    }

    /// Draws the next value: uniform in `[0, bound)`, and equal to
    /// `rng_draw` of the source's seed and history.
    ///
    /// Relies on `rand::RngExt::random_range` over a `chacha20::ChaCha12Rng`:
    /// the result lies in the requested range (the range `0..bound` is
    /// non-empty, so `random_range` does not panic), and it is computed from
    /// the bound and the ChaCha12 keystream alone, which the seed and the
    /// earlier draws' bounds determine.
    #[verifier::external_body]
    pub fn draw(&mut self, bound: u64) -> (r: u64)
        requires
            bound >= 1,
        ensures
            r == rng_draw(old(self).seed(), old(self).history(), bound),
            r < bound,
            final(self).seed() == old(self).seed(),
            final(self).history() == old(self).history().push(bound),
    {
        rand::RngExt::random_range(&mut self.rng, 0..bound)
    }
}

} // verus!
