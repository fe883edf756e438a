//! Configuration of the robust path: the consensus search over minimal
//! samples.
//!
//! The search itself is any sample-consensus algorithm that draws
//! four-point samples, has each fitted, and keeps the candidate that the most
//! correspondences support. What is fixed here is what makes its result
//! reproducible and comparable: the seed of its random generator and the
//! cutoff on the residual.
use crate::kernel::check_sample_count;
use vstd::prelude::*;

verus! {

/// The squared distance, `0.1`, below which a correspondence supports a
/// candidate.
pub const INLIER_THRESHOLD: u64 = 0x3FB9_9999_9999_999A;

/// The number of bytes that seed the generator.
pub const SEED_LEN: usize = 32;

/// What a consensus search is run with.
#[derive(Clone, Copy, Debug)]
pub struct ConsensusConfig {
    /// The cutoff on the residual, as the bit pattern of a double.
    pub inlier_threshold: u64,
    /// The seed of the pseudo-random generator that draws the samples.
    pub seed: [u8; 32],
}

impl ConsensusConfig {
    /// The standard configuration: every seed byte is 1, the cutoff is
    /// [`INLIER_THRESHOLD`]. It is a constant and draws on no entropy, so
    /// that a search run twice on the same correspondences draws the same
    /// samples.
    pub fn standard() -> (r: ConsensusConfig)
        ensures
            r.inlier_threshold == INLIER_THRESHOLD,
            r.seed@ == Seq::new(SEED_LEN as nat, |i: int| 1u8),
    {
        let config = ConsensusConfig { inlier_threshold: INLIER_THRESHOLD, seed: [1u8; 32] };
        assert(config.seed@ =~= Seq::new(SEED_LEN as nat, |i: int| 1u8));
        config
    }

    /// Whether a search can be run on `count` correspondences: there must be
    /// enough to draw one minimal sample from.
    pub fn admits(&self, count: usize) -> (r: bool)
        ensures
            r == (count >= 4),
    {
        check_sample_count(count).is_ok()
    }
}

} // verus!
