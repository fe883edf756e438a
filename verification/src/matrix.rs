//! The homography as a value: nine doubles in row-major order.
use crate::binary64;
use vstd::prelude::*;
use vstd::std_specs::cmp::PartialEqSpecImpl;

verus! {

/// Index of the bottom-right entry, the one that fixes the matrix's scale.
pub const PIVOT: usize = 8;

/// A 3x3 matrix of doubles, held as their bit patterns in row-major order:
/// entry `(row, col)` is at index `3 * row + col`.
#[derive(Clone, Copy, Debug)]
pub struct HomographyMatrix(pub [u64; 9]);

impl View for HomographyMatrix {
    type V = Seq<u64>;

    open spec fn view(&self) -> Seq<u64> {
        self.0@
    }
}

impl HomographyMatrix {
    /// Every entry is a finite number.
    pub open spec fn spec_is_finite(&self) -> bool {
        forall|i: int| 0 <= i < 9 ==> binary64::spec_is_finite(#[trigger] self@[i])
    }

    /// The matrix is finite and its bottom-right entry is exactly one.
    pub open spec fn spec_is_normalized(&self) -> bool {
        self.spec_is_finite() && self@[PIVOT as int] == binary64::ONE
    }

    /// Entry by entry, the two matrices hold equal numbers.
    pub open spec fn same_numbers(&self, other: &HomographyMatrix) -> bool {
        forall|i: int| 0 <= i < 9 ==> binary64::spec_equal_to(#[trigger] self@[i], other@[i])
    }

    /// The matrix whose rows are the three consecutive triples of `entries`.
    /// This is how the nine components of an eigenvector become a matrix.
    pub fn from_row_major(entries: [u64; 9]) -> (m: HomographyMatrix)
        ensures
            m@ == entries@,
    {
        HomographyMatrix(entries)
    }

    /// The entry in row `row` and column `col`, both counted from zero.
    pub fn entry(&self, row: usize, col: usize) -> (r: u64)
        requires
            row < 3,
            col < 3,
        ensures
            r == self@[3 * row + col],
    {
        self.0[3 * row + col]
    }

    /// The bottom-right entry.
    pub fn pivot(&self) -> (r: u64)
        ensures
            r == self@[PIVOT as int],
    {
        self.0[PIVOT]
    }

    /// Whether every entry is a finite number.
    #[verifier::when_used_as_spec(spec_is_finite)]
    pub fn is_finite(&self) -> (r: bool)
        ensures
            r == self.spec_is_finite(),
    {
        let mut i: usize = 0;
        while i < 9
            invariant
                i <= 9,
                forall|j: int| 0 <= j < i ==> binary64::spec_is_finite(#[trigger] self@[j]),
            decreases 9 - i,
        {
            if !binary64::is_finite(self.0[i]) {
                assert(!binary64::spec_is_finite(self@[i as int]));
                return false;
            }
            i += 1;
        }
        true
    }

    /// Whether the matrix is finite with bottom-right entry exactly one.
    #[verifier::when_used_as_spec(spec_is_normalized)]
    pub fn is_normalized(&self) -> (r: bool)
        ensures
            r == self.spec_is_normalized(),
    {
        self.is_finite() && self.0[PIVOT] == binary64::ONE
    }
}

impl PartialEq for HomographyMatrix {
    /// Entry-wise equality of the numbers, as doubles compare: the two zeros
    /// are equal, and a matrix that holds a NaN equals nothing.
    fn eq(&self, other: &HomographyMatrix) -> (r: bool) {
        let mut i: usize = 0;
        while i < 9
            invariant
                i <= 9,
                forall|j: int| 0 <= j < i ==> binary64::spec_equal_to(#[trigger] self@[j], other@[j]),
            decreases 9 - i,
        {
            if !binary64::equal_to(self.0[i], other.0[i]) {
                assert(!binary64::spec_equal_to(self@[i as int], other@[i as int]));
                return false;
            }
            i += 1;
        }
        true
    }
}

impl PartialEqSpecImpl for HomographyMatrix {
    open spec fn obeys_eq_spec() -> bool {
        true
    }

    open spec fn eq_spec(&self, other: &HomographyMatrix) -> bool {
        self.same_numbers(other)
    }
}

} // verus!
