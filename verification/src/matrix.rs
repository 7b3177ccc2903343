//! The trace matrix of the proving backend, as verified code sees it.

use crate::field::reduce;
use p3_baby_bear::BabyBear;
use p3_field::{PrimeCharacteristicRing, PrimeField64};
use p3_matrix::dense::RowMajorMatrix;
use p3_matrix::Matrix;
use vstd::prelude::*;

verus! {

/// A dense row-major matrix over the proving field: the backend's own
/// `p3_matrix::dense::RowMajorMatrix` of `p3_baby_bear::BabyBear` elements.
///
/// The verifier does not look inside. What the matrix holds is named by
/// [`matrix_cells`] and [`matrix_width`], and verified code reaches it only
/// through the trusted functions of this module.
#[verifier::external_body]
pub struct TraceMatrix {
    inner: RowMajorMatrix<BabyBear>,
}

/// The cells of a matrix in row-major order, each as the canonical
/// representative of its field element.
pub uninterp spec fn matrix_cells(m: TraceMatrix) -> Seq<u64>;

/// The number of columns that a matrix was made with.
pub uninterp spec fn matrix_width(m: TraceMatrix) -> nat;

/// The number of whole rows that the cells fill.
pub open spec fn matrix_height(m: TraceMatrix) -> nat {
    if matrix_width(m) == 0 {
        0
    } else {
        matrix_cells(m).len() / matrix_width(m)
    }
}

/// Row `r` of a matrix.
pub open spec fn matrix_row(m: TraceMatrix, r: int) -> Seq<u64> {
    matrix_cells(m).subrange(r * matrix_width(m), (r + 1) * matrix_width(m))
}

/// Builds the backend's matrix from integers, one per cell.
///
/// Trusted: `BabyBear::from_u64` maps each integer to its class modulo the
/// prime, and `RowMajorMatrix::new` keeps the values in their order together
/// with the width. `new` expects the values to fill whole rows.
#[verifier::external_body]
pub(crate) fn matrix_from_cells(cells: Vec<u64>, width: usize) -> (m: TraceMatrix)
    requires
        width == 0 || cells.len() % width == 0,
    ensures
        matrix_width(m) == width,
        matrix_cells(m).len() == cells.len(),
        forall|i: int| 0 <= i < cells.len() ==> #[trigger] matrix_cells(m)[i] == reduce(cells[i] as int),
{
    TraceMatrix { inner: RowMajorMatrix::new(cells.into_iter().map(BabyBear::from_u64).collect(), width) }
}

/// Trusted: `Matrix::width` of a dense matrix returns the width it was made with.
#[verifier::external_body]
pub(crate) fn width_of(m: &TraceMatrix) -> (width: usize)
    ensures
        width == matrix_width(*m),
{
    m.inner.width()
}

/// Trusted: `Matrix::height` of a dense matrix is the number of values
/// divided by the width, and zero where the width is zero.
#[verifier::external_body]
pub(crate) fn height_of(m: &TraceMatrix) -> (height: usize)
    ensures
        height == matrix_height(*m),
{
    m.inner.height()
}

/// Trusted: `Matrix::row_slice` returns the `width` values of row `r` where
/// `r` is below the height and `None` otherwise; `as_canonical_u64` gives
/// each value's representative below the prime.
#[verifier::external_body]
pub(crate) fn row_of(m: &TraceMatrix, r: usize) -> (row: Option<Vec<u64>>)
    ensures
        r < matrix_height(*m) ==> row.is_some() && row.unwrap()@ == matrix_row(*m, r as int),
        r >= matrix_height(*m) ==> row.is_none(),
{
    m.inner.row_slice(r).map(|row| row.iter().map(|x| x.as_canonical_u64()).collect())
}

impl TraceMatrix {
    /// The matrix of the given width whose cells, row by row, are the field
    /// elements of `cells`; `None` where the cells do not fill whole rows.
    pub fn from_cells(cells: Vec<u64>, width: usize) -> (matrix: Option<TraceMatrix>)
        ensures
            matrix is Some <==> (width == 0 || cells@.len() % (width as nat) == 0),
            matrix matches Some(m) ==> {
                &&& matrix_width(m) == width
                &&& matrix_cells(m).len() == cells@.len()
                &&& forall|i: int| 0 <= i < cells@.len() ==> #[trigger] matrix_cells(m)[i] == reduce(cells@[i] as int)
            },
    {
        if width == 0 || cells.len() % width == 0 {
            Some(matrix_from_cells(cells, width))
        } else {
            None
        }
    }

    /// Number of columns.
    pub fn width(&self) -> (width: usize)
        ensures
            width == matrix_width(*self),
    {
        width_of(self)
    }

    /// Number of rows.
    pub fn height(&self) -> (height: usize)
        ensures
            height == matrix_height(*self),
    {
        height_of(self)
    }

    /// The cells of row `r` as canonical integers, or `None` past the last row.
    pub fn row(&self, r: usize) -> (row: Option<Vec<u64>>)
        ensures
            r < matrix_height(*self) ==> row.is_some() && row.unwrap()@ == matrix_row(*self, r as int),
            r >= matrix_height(*self) ==> row.is_none(),
    {
        row_of(self, r)
    }
}

} // verus!
