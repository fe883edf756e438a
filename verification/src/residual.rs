//! The residual of a correspondence under a homography.
//!
//! The homography maps the source point, in homogeneous coordinates, to a
//! point `(u, v, w)`. Where `w` is not zero this is the point `(u/w, v/w)` of
//! the plane, and the residual is its squared distance to the destination
//! point. Where `w` is zero the source point is mapped to infinity and the
//! residual is undefined; it is then given as positive infinity, so that the
//! correspondence supports the homography under no threshold.
use crate::binary64;
use vstd::prelude::*;

verus! {

/// The residual, given the third homogeneous coordinate `w` of the mapped
/// source point and the squared distance computed from it: that distance
/// where it is defined, positive infinity where `w` is zero or the distance
/// is a NaN.
pub open spec fn spec_residual(w: u64, squared_distance: u64) -> u64 {
    if binary64::spec_is_zero(w) || binary64::spec_is_nan(squared_distance) {
        binary64::INFINITY
    } else {
        squared_distance
    }
}

/// A residual below the threshold: the correspondence supports the model.
pub open spec fn is_inlier(residual: u64, threshold: u64) -> bool {
    binary64::spec_less_than(residual, threshold)
}

/// The residual of a correspondence whose source point is mapped to a point
/// with third homogeneous coordinate `w`, at `squared_distance` from the
/// destination point.
#[verifier::when_used_as_spec(spec_residual)]
pub fn residual(w: u64, squared_distance: u64) -> (r: u64)
    ensures
        r == spec_residual(w, squared_distance),
        !binary64::spec_is_nan(r),
{
    if binary64::is_zero(w) || binary64::is_nan(squared_distance) {
        binary64::INFINITY
    } else {
        squared_distance
    }
}

/// A correspondence whose residual is undefined is an inlier under no
/// threshold, and one whose residual is defined is an inlier exactly when
/// its squared distance is below the threshold.
pub proof fn lemma_undefined_is_no_inlier(w: u64, squared_distance: u64, threshold: u64)
    ensures
        binary64::spec_is_zero(w) ==> !is_inlier(spec_residual(w, squared_distance), threshold),
        !binary64::spec_is_zero(w) ==> (is_inlier(spec_residual(w, squared_distance), threshold)
            <==> binary64::spec_less_than(squared_distance, threshold)),
{
    binary64::lemma_infinity_bounds(threshold);
}

} // verus!
