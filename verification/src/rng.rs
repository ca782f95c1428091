use crate::error::Error;
use rand::{Rng, SeedableRng};
use vstd::prelude::*;

verus! {

#[verifier::external_type_specification]
#[verifier::external_body]
pub struct ExChaChaRng(rand::ChaChaRng);

/// The value that a fresh `gen::<u64>()` call returns on a ChaCha generator
/// built from `seed`, after the calls recorded in `prior` were made on it
/// (a `(0, 0)` entry stands for a plain draw, `(lo, hi)` for a ranged one).
pub uninterp spec fn chacha_gen_u64(seed: Seq<u32>, prior: Seq<(u64, u64)>) -> u64;

/// The value that a fresh `gen_range::<u64>(lo, hi)` call returns on a ChaCha
/// generator built from `seed`, after the calls recorded in `prior`.
pub uninterp spec fn chacha_gen_range_u64(
    seed: Seq<u32>,
    prior: Seq<(u64, u64)>,
    lo: u64,
    hi: u64,
) -> u64;

/// A seeded stream-cipher generator together with the record of the draws
/// made on it, so that every draw is a function of the seed words alone.
pub struct NodeRng {
    inner: rand::ChaChaRng,
    seed: Ghost<Seq<u32>>,
    trace: Ghost<Seq<(u64, u64)>>,
}

impl NodeRng {
    /// The seed words this generator was built from.
    pub closed spec fn spec_seed(self) -> Seq<u32> {
        self.seed@
    }

    /// The draws made on this generator so far, in order.
    pub closed spec fn spec_trace(self) -> Seq<(u64, u64)> {
        self.trace@
    }

    /// A fresh generator seeded with the given words, with no draws made yet.
    pub fn from_seed(seed: &[u32; 8]) -> (r: NodeRng)
        ensures
            r.spec_seed() == seed@,
            r.spec_trace() == Seq::<(u64, u64)>::empty(),
    {
        NodeRng { inner: chacha_raw(seed), seed: Ghost(seed@), trace: Ghost(Seq::empty()) }
    }

    /// Relies on `rand::Rng::gen::<u64>` (rand 0.4): the draw is a pure
    /// function of the seed and of the draws made before it.
    #[verifier::external_body]
    pub fn gen_u64(&mut self) -> (x: u64)
        ensures
            x == chacha_gen_u64(old(self).spec_seed(), old(self).spec_trace()),
            final(self).spec_seed() == old(self).spec_seed(),
            final(self).spec_trace() == old(self).spec_trace().push((0u64, 0u64)),
    {
        self.inner.gen::<u64>()
    }

    /// Relies on `rand::Rng::gen_range::<u64>` (rand 0.4): the draw lies in
    /// `[lo, hi)` and is a pure function of the seed, of the draws made
    /// before it, and of the two bounds.
    #[verifier::external_body]
    pub fn gen_range_u64(&mut self, lo: u64, hi: u64) -> (x: u64)
        requires
            lo < hi,
        ensures
            lo <= x < hi,
            x == chacha_gen_range_u64(old(self).spec_seed(), old(self).spec_trace(), lo, hi),
            final(self).spec_seed() == old(self).spec_seed(),
            final(self).spec_trace() == old(self).spec_trace().push((lo, hi)),
    {
        self.inner.gen_range(lo, hi)
    }
}

/// Relies on `rand::ChaChaRng::from_seed` (rand 0.4): the generator's entire
/// output stream is a function of the seed words alone, which is what the
/// two draw methods above state through `chacha_gen_u64` and
/// `chacha_gen_range_u64`.
#[verifier::external_body]
fn chacha_raw(seed: &[u32; 8]) -> rand::ChaChaRng {
    rand::ChaChaRng::from_seed(&seed[..])
}

/// Relies on `rand::OsRng` (rand 0.4): seven words drawn from the operating
/// system's entropy source, or an error when that source is unavailable.
#[verifier::external_body]
pub fn new_seed() -> Result<[u32; 7], Error> {
    match rand::OsRng::new() {
        Ok(mut r) => Ok(r.gen()),
        Err(_) => Err(Error::EntropySource),
    }
}

} // verus!
