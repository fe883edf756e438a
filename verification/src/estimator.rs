//! The minimal-sample estimator that a consensus search draws candidates
//! from.
use crate::fit::{lemma_fitted_exactly, leads_to, stage_after, FitEvent};
use crate::kernel::FitError;
use crate::matrix::HomographyMatrix;
use vstd::prelude::*;

verus! {

/// Fits candidate homographies to minimal samples of four correspondences.
#[derive(Clone, Copy, Debug)]
pub struct HomographyEstimator {}

impl HomographyEstimator {
    /// The number of correspondences that a candidate is fitted to: as many
    /// as a fit needs at least.
    pub const MIN_SAMPLES: usize = crate::kernel::MIN_SAMPLES;

    /// The candidate that a fit yields: its homography, or none where it
    /// failed.
    pub open spec fn spec_estimate(fit: Result<HomographyMatrix, FitError>) -> Option<
        HomographyMatrix,
    > {
        match fit {
            Ok(matrix) => Some(matrix),
            Err(_) => None,
        }
    }

    /// The candidate that the fit to a sample has come to. A sample that
    /// admits no fit yields none: the search drops it and draws another.
    pub fn estimate(&self, fit: Result<HomographyMatrix, FitError>) -> (r: Option<
        HomographyMatrix,
    >)
        ensures
            r == Self::spec_estimate(fit),
            r is Some <==> fit is Ok,
    {
        match fit {
            Ok(matrix) => Some(matrix),
            Err(_) => None,
        }
    }
}

/// Every candidate that comes of a fit is a normalized homography, reached
/// through all five decisions of the fit.
pub proof fn lemma_candidates_are_normalized(events: Seq<FitEvent>, candidate: HomographyMatrix)
    requires
        stage_after(events).spec_outcome() matches Some(fit) && HomographyEstimator::spec_estimate(
            fit,
        ) == Some(candidate),
    ensures
        candidate.spec_is_normalized(),
        leads_to(events, candidate),
{
    lemma_fitted_exactly(events, candidate);
}

} // verus!
