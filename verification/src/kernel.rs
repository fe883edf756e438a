//! The decisions of the normalized linear fit.
//!
//! A fit centres and rescales both point sets, accumulates the 9x9 normal
//! matrix of the linear constraints, takes the eigenvector of its smallest
//! eigenvalue as a 3x3 matrix, maps that back to the coordinates it was given
//! and rescales it so that its bottom-right entry is one. The arithmetic in
//! between is the caller's; what is decided on its results is decided here:
//! whether there are enough correspondences, whether the points spread along
//! every axis, which eigenvector is taken, whether the matrix can be brought
//! to scale, and whether what comes out is a normalized homography.
use crate::binary64;
use crate::matrix::HomographyMatrix;
use vstd::prelude::*;

verus! {

/// The number of correspondences that determines a homography, and the least
/// that a fit accepts.
pub const MIN_SAMPLES: usize = 4;

/// Why a fit produced no homography.
#[derive(Clone, Copy, Debug, PartialEq, Eq, Structural)]
pub enum FitError {
    /// Fewer than [`MIN_SAMPLES`] correspondences were supplied.
    InsufficientSamples,
    /// Along some axis the source or the destination points do not spread:
    /// they coincide, or lie on a line across that axis.
    DegenerateInput,
    /// A quantity that the fit depends on is an infinity or a NaN.
    NonFinite,
    /// The bottom-right entry of the fitted matrix is numerically zero, so
    /// the matrix cannot be scaled to make it one.
    VanishingScale,
    /// A result was handed in that the fit was not waiting for.
    OutOfOrder,
}

impl FitError {
    /// The text of [`FitError::message`].
    pub open spec fn spec_message(&self) -> Seq<char> {
        match *self {
            FitError::InsufficientSamples => "At least four point pairs are needed"@,
            FitError::DegenerateInput => "Points are too close to each other"@,
            FitError::NonFinite => "A coordinate or an intermediate result is not finite"@,
            FitError::VanishingScale => "The last entry of the matrix is too close to zero"@,
            FitError::OutOfOrder => "A result was supplied out of order"@,
        }
    }

    /// A sentence that says what went wrong.
    pub fn message(&self) -> (r: &'static str)
        ensures
            r@ == self.spec_message(),
    {
        match self {
            FitError::InsufficientSamples => "At least four point pairs are needed",
            FitError::DegenerateInput => "Points are too close to each other",
            FitError::NonFinite => "A coordinate or an intermediate result is not finite",
            FitError::VanishingScale => "The last entry of the matrix is too close to zero",
            FitError::OutOfOrder => "A result was supplied out of order",
        }
    }
}

/// Mean absolute deviation of the points from their centroid, for the source
/// and the destination set and along each axis.
#[derive(Clone, Copy, Debug)]
pub struct Spreads {
    pub source_x: u64,
    pub source_y: u64,
    pub destination_x: u64,
    pub destination_y: u64,
}

impl Spreads {
    /// Some spread is numerically zero.
    pub open spec fn spec_any_negligible(&self) -> bool {
        ||| binary64::spec_is_negligible(self.source_x)
        ||| binary64::spec_is_negligible(self.source_y)
        ||| binary64::spec_is_negligible(self.destination_x)
        ||| binary64::spec_is_negligible(self.destination_y)
    }

    /// All four spreads are finite numbers.
    pub open spec fn spec_all_finite(&self) -> bool {
        &&& binary64::spec_is_finite(self.source_x)
        &&& binary64::spec_is_finite(self.source_y)
        &&& binary64::spec_is_finite(self.destination_x)
        &&& binary64::spec_is_finite(self.destination_y)
    }
}

/// All of the values are finite numbers.
pub open spec fn all_finite(values: Seq<u64>) -> bool {
    forall|i: int| 0 <= i < values.len() ==> binary64::spec_is_finite(#[trigger] values[i])
}

/// Where a left-to-right scan for the least of the first `n` values ends: it
/// holds index 0 at first and moves on to a later index only when the value
/// there is below the one it holds.
pub open spec fn scan_least(values: Seq<u64>, n: nat) -> nat
    decreases n,
{
    if n <= 1 {
        0
    } else {
        let held = scan_least(values, (n - 1) as nat);
        if binary64::spec_less_than(values[n - 1], values[held as int]) {
            (n - 1) as nat
        } else {
            held
        }
    }
}

/// `index` is where the least value first occurs: no value is below the one
/// there, and every value before it is above it.
pub open spec fn is_first_least(values: Seq<u64>, index: int) -> bool {
    &&& 0 <= index < values.len()
    &&& forall|j: int|
        0 <= j < values.len() ==> !binary64::spec_less_than(#[trigger] values[j], values[index])
    &&& forall|j: int|
        0 <= j < index ==> binary64::spec_less_than(values[index], #[trigger] values[j])
}

/// A fit needs [`MIN_SAMPLES`] correspondences at least.
pub open spec fn spec_check_sample_count(count: usize) -> Result<(), FitError> {
    if count < MIN_SAMPLES {
        Err(FitError::InsufficientSamples)
    } else {
        Ok(())
    }
}

/// Spreads are degenerate when one of them is numerically zero; otherwise
/// they must all be finite.
pub open spec fn spec_check_spreads(spreads: Spreads) -> Result<(), FitError> {
    if spreads.spec_any_negligible() {
        Err(FitError::DegenerateInput)
    } else if !spreads.spec_all_finite() {
        Err(FitError::NonFinite)
    } else {
        Ok(())
    }
}

/// Of finite eigenvalues the scan for the least picks the eigenvector;
/// others give none.
pub open spec fn spec_select_eigenvector(eigenvalues: Seq<u64>) -> Result<usize, FitError> {
    if all_finite(eigenvalues) {
        Ok(scan_least(eigenvalues, eigenvalues.len()) as usize)
    } else {
        Err(FitError::NonFinite)
    }
}

/// The bottom-right entry must not be numerically zero, and must be finite.
pub open spec fn spec_check_pivot(pivot: u64) -> Result<(), FitError> {
    if binary64::spec_is_negligible(pivot) {
        Err(FitError::VanishingScale)
    } else if !binary64::spec_is_finite(pivot) {
        Err(FitError::NonFinite)
    } else {
        Ok(())
    }
}

/// The rescaled matrix must be finite, and its bottom-right entry one.
pub open spec fn spec_check_rescaled(matrix: HomographyMatrix) -> Result<(), FitError> {
    if !matrix.spec_is_finite() {
        Err(FitError::NonFinite)
    } else if !matrix.spec_is_normalized() {
        Err(FitError::VanishingScale)
    } else {
        Ok(())
    }
}

/// Among numbers, the scan ends where the least value first occurs.
pub proof fn lemma_scan_least_is_first_least(values: Seq<u64>, n: nat)
    requires
        1 <= n <= values.len(),
        forall|i: int| 0 <= i < n ==> !binary64::spec_is_nan(#[trigger] values[i]),
    ensures
        is_first_least(values.take(n as int), scan_least(values, n) as int),
    decreases n,
{
    let head = values.take(n as int);
    if n > 1 {
        let shorter = values.take(n - 1);
        let held = scan_least(values, (n - 1) as nat) as int;
        lemma_scan_least_is_first_least(values, (n - 1) as nat);
        assert forall|j: int| 0 <= j < n - 1 implies shorter[j] == head[j] by {}
        let found = scan_least(values, n) as int;
        assert forall|j: int| 0 <= j < head.len() implies !binary64::spec_less_than(
            #[trigger] head[j],
            head[found],
        ) by {
            if j < n - 1 {
                assert(!binary64::spec_less_than(shorter[j], shorter[held]));
            }
        }
        assert forall|j: int| 0 <= j < found implies binary64::spec_less_than(
            head[found],
            #[trigger] head[j],
        ) by {
            assert(!binary64::spec_less_than(shorter[j], shorter[held]));
            if j < held {
                assert(binary64::spec_less_than(shorter[held], shorter[j]));
            }
        }
    }
}

/// At most one index is the first occurrence of the least value.
pub proof fn lemma_first_least_is_unique(values: Seq<u64>, i: int, j: int)
    requires
        is_first_least(values, i),
        is_first_least(values, j),
    ensures
        i == j,
{
    if i < j {
        assert(binary64::spec_less_than(values[j], values[i]));
    } else if j < i {
        assert(binary64::spec_less_than(values[i], values[j]));
    }
}

/// Accepts a number of correspondences that a fit can work on.
pub fn check_sample_count(count: usize) -> (r: Result<(), FitError>)
    ensures
        r == spec_check_sample_count(count),
        r is Ok <==> count >= 4,
{
    if count < MIN_SAMPLES {
        Err(FitError::InsufficientSamples)
    } else {
        Ok(())
    }
}

/// Accepts spreads by which the coordinates can be rescaled: degenerate when
/// one of them is numerically zero, and unusable when one is not finite.
pub fn check_spreads(spreads: &Spreads) -> (r: Result<(), FitError>)
    ensures
        r == spec_check_spreads(*spreads),
        r == Err::<(), FitError>(FitError::DegenerateInput) <==> spreads.spec_any_negligible(),
{
    if binary64::is_negligible(spreads.source_x) || binary64::is_negligible(spreads.source_y)
        || binary64::is_negligible(spreads.destination_x) || binary64::is_negligible(
        spreads.destination_y,
    ) {
        Err(FitError::DegenerateInput)
    } else if !(binary64::is_finite(spreads.source_x) && binary64::is_finite(spreads.source_y)
        && binary64::is_finite(spreads.destination_x) && binary64::is_finite(
        spreads.destination_y,
    )) {
        Err(FitError::NonFinite)
    } else {
        Ok(())
    }
}

/// The index that a left-to-right scan for the least of the nine values ends
/// on. Among numbers that is the first occurrence of the least.
pub fn smallest(values: &[u64; 9]) -> (index: usize)
    ensures
        index == scan_least(values@, 9),
        index < 9,
        (forall|i: int| 0 <= i < 9 ==> !binary64::spec_is_nan(#[trigger] values@[i]))
            ==> is_first_least(values@, index as int),
{
    let mut held: usize = 0;
    let mut i: usize = 1;
    while i < 9
        invariant
            1 <= i <= 9,
            held < i,
            held == scan_least(values@, i as nat),
        decreases 9 - i,
    {
        if binary64::less_than(values[i], values[held]) {
            held = i;
        }
        i += 1;
    }
    proof {
        if forall|i: int| 0 <= i < 9 ==> !binary64::spec_is_nan(#[trigger] values@[i]) {
            lemma_scan_least_is_first_least(values@, 9);
            assert(values@.take(9) == values@);
        }
    }
    held
}

/// Picks the eigenvector to take: the one of the smallest eigenvalue, the
/// first such where several are equal. Eigenvalues that are not all finite
/// give no choice.
pub fn select_eigenvector(eigenvalues: &[u64; 9]) -> (r: Result<usize, FitError>)
    ensures
        r == spec_select_eigenvector(eigenvalues@),
        match r {
            Ok(column) => all_finite(eigenvalues@) && is_first_least(eigenvalues@, column as int),
            Err(e) => e == FitError::NonFinite && !all_finite(eigenvalues@),
        },
{
    let mut i: usize = 0;
    while i < 9
        invariant
            i <= 9,
            forall|j: int| 0 <= j < i ==> binary64::spec_is_finite(#[trigger] eigenvalues@[j]),
        decreases 9 - i,
    {
        if !binary64::is_finite(eigenvalues[i]) {
            assert(!binary64::spec_is_finite(eigenvalues@[i as int]));
            return Err(FitError::NonFinite);
        }
        i += 1;
    }
    Ok(smallest(eigenvalues))
}

/// Accepts a bottom-right entry that the matrix can be divided by.
pub fn check_pivot(pivot: u64) -> (r: Result<(), FitError>)
    ensures
        r == spec_check_pivot(pivot),
        r is Ok <==> binary64::spec_is_finite(pivot) && !binary64::spec_is_negligible(pivot),
{
    if binary64::is_negligible(pivot) {
        Err(FitError::VanishingScale)
    } else if !binary64::is_finite(pivot) {
        Err(FitError::NonFinite)
    } else {
        Ok(())
    }
}

/// Accepts a rescaled matrix as the fit's result: every entry finite, the
/// bottom-right one exactly one.
pub fn check_rescaled(matrix: &HomographyMatrix) -> (r: Result<(), FitError>)
    ensures
        r == spec_check_rescaled(*matrix),
        r is Ok <==> matrix.spec_is_normalized(),
{
    if !matrix.is_finite() {
        Err(FitError::NonFinite)
    } else if !matrix.is_normalized() {
        Err(FitError::VanishingScale)
    } else {
        Ok(())
    }
}

} // verus!
