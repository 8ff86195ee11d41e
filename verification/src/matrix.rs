//! The logit matrix: one row per time step, one column per symbol class.
//!
//! The cells live in an `ndarray::Array2<u32>`. Verus does not look inside
//! it; `matrix_rows` and `matrix_width` name what it holds, and the
//! functions at the end of this file say what each `ndarray` call does to them.

use vstd::prelude::*;
use crate::error::EngineError;

verus! {

/// A two-dimensional array of bit patterns.
///
/// The array type of `ndarray` is bound by traits that Verus has no
/// declaration of, so the struct as a whole is opaque to it.
#[verifier::external_body]
pub struct LogitMatrix {
    cells: ndarray::Array2<u32>,
}

#[verifier::external_type_specification]
#[verifier::external_body]
pub struct ExShapeError(ndarray::ShapeError);

/// The rows of a matrix, first to last.
pub uninterp spec fn matrix_rows(m: LogitMatrix) -> Seq<Seq<u32>>;

/// The number of columns of a matrix, which it has even when it has no rows.
pub uninterp spec fn matrix_width(m: LogitMatrix) -> nat;

/// Whether an array of this shape can exist: the product of its non-zero
/// axis lengths is at most `isize::MAX`.
pub open spec fn shape_fits(rows: int, cols: int) -> bool {
    (if rows == 0 { 1 } else { rows }) * (if cols == 0 { 1 } else { cols }) <= isize::MAX
}

/// The rows that a row-major buffer holds under the shape `(rows, cols)`.
pub open spec fn row_major(data: Seq<u32>, rows: int, cols: int) -> Seq<Seq<u32>> {
    Seq::new(rows as nat, |i: int| data.subrange(i * cols, i * cols + cols))
}

/// The rows of several matrices, one matrix after the other.
pub open spec fn joined_rows(parts: Seq<LogitMatrix>) -> Seq<Seq<u32>>
    decreases parts.len(),
{
    if parts.len() == 0 {
        Seq::empty()
    } else {
        joined_rows(parts.drop_last()) + matrix_rows(parts.last())
    }
}

/// Whether all matrices have `width` columns.
pub open spec fn all_of_width(parts: Seq<LogitMatrix>, width: nat) -> bool {
    forall|i: int| 0 <= i < parts.len() ==> matrix_width(#[trigger] parts[i]) == width
}

/// Whether the matrices can be joined into one: there is at least one, all
/// are as wide as the first, and the shape of the result can exist.
pub open spec fn can_join(parts: Seq<LogitMatrix>) -> bool {
    &&& parts.len() > 0
    &&& all_of_width(parts, matrix_width(parts[0]))
    &&& shape_fits(joined_rows(parts).len() as int, matrix_width(parts[0]) as int)
}

impl View for LogitMatrix {
    type V = Seq<Seq<u32>>;

    open spec fn view(&self) -> Seq<Seq<u32>> {
        matrix_rows(*self)
    }
}

impl LogitMatrix {
    /// The number of columns.
    pub open spec fn width(&self) -> nat {
        matrix_width(*self)
    }

    /// Builds a matrix of `rows` by `cols` cells from a row-major buffer.
    ///
    /// Fails with `ShapeMismatch` when the buffer does not hold exactly
    /// `rows * cols` cells, and with `TooLarge` when it does but no array of
    /// that shape can exist.
    pub fn from_shape_vec(rows: usize, cols: usize, data: Vec<u32>) -> (r: Result<LogitMatrix, EngineError>)
        ensures
            match r {
                Ok(m) => {
                    &&& rows * cols == data.len()
                    &&& shape_fits(rows as int, cols as int)
                    &&& m.width() == cols
                    &&& m@ == row_major(data@, rows as int, cols as int)
                },
                Err(e) => {
                    &&& e == EngineError::ShapeMismatch <==> rows * cols != data.len()
                    &&& e == EngineError::TooLarge <==> rows * cols == data.len()
                    &&& e == EngineError::ShapeMismatch || e == EngineError::TooLarge
                    &&& !(rows * cols == data.len() && shape_fits(rows as int, cols as int))
                },
            },
    {
        let cells: usize = data.len();
        match array_from_shape_vec(rows, cols, data) {
            Ok(m) => Ok(m),
            Err(_) => {
                match rows.checked_mul(cols) {
                    Some(product) => {
                        if product == cells {
                            Err(EngineError::TooLarge)
                        } else {
                            Err(EngineError::ShapeMismatch)
                        }
                    },
                    None => Err(EngineError::ShapeMismatch),
                }
            },
        }
    }

    /// The number of rows.
    pub fn nrows(&self) -> (n: usize)
        ensures
            n == self@.len(),
    {
        array_nrows(self)
    }

    /// The number of columns, which is also the length of every row.
    pub fn ncols(&self) -> (n: usize)
        ensures
            n == self.width(),
            forall|i: int| 0 <= i < self@.len() ==> (#[trigger] self@[i]).len() == n,
    {
        array_ncols(self)
    }

    /// The cell in row `i` and column `j`, if there is one.
    pub fn get(&self, i: usize, j: usize) -> (cell: Option<u32>)
        ensures
            cell is Some <==> i < self@.len() && j < self.width(),
            cell matches Some(v) ==> v == self@[i as int][j as int],
    {
        if i < array_nrows(self) && j < array_ncols(self) {
            Some(array_get(self, i, j))
        } else {
            None
        }
    }

    /// The cells of row `i`, if there is such a row.
    pub fn row(&self, i: usize) -> (cells: Option<Vec<u32>>)
        ensures
            cells is Some <==> i < self@.len(),
            cells matches Some(v) ==> v@ == self@[i as int],
    {
        if i >= array_nrows(self) {
            return None;
        }
        let width: usize = array_ncols(self);
        let mut cells: Vec<u32> = Vec::new();
        let mut j: usize = 0;
        while j < width
            invariant
                i < self@.len(),
                width == self.width(),
                self@[i as int].len() == width,
                j <= width,
                cells.len() == j,
                forall|k: int| 0 <= k < j ==> cells[k] == self@[i as int][k],
            decreases width - j,
        {
            cells.push(array_get(self, i, j));
            j += 1;
        }
        assert(cells@ =~= self@[i as int]);
        Some(cells)
    }

    /// The rows from `start` up to, not including, `end`, if that is a
    /// range of rows of this matrix.
    pub fn rows_between(&self, start: usize, end: usize) -> (part: Option<LogitMatrix>)
        ensures
            part is Some <==> start <= end <= self@.len(),
            part matches Some(p) ==> p@ == self@.subrange(start as int, end as int),
            part matches Some(p) ==> p.width() == self.width(),
    {
        if start <= end && end <= array_nrows(self) {
            Some(array_slice_rows(self, start, end))
        } else {
            None
        }
    }
}

/// `ndarray::Array2::from_shape_vec`, called with the shape `(rows, cols)` in
/// the default row-major order. It succeeds exactly when the buffer holds
/// `rows * cols` cells and the shape can exist; the cell in row `i` and
/// column `j` is then `data[i * cols + j]`.
#[verifier::external_body]
fn array_from_shape_vec(rows: usize, cols: usize, data: Vec<u32>) -> (r: Result<LogitMatrix, ndarray::ShapeError>)
    ensures
        r.is_ok() == (rows * cols == data.len() && shape_fits(rows as int, cols as int)),
        r matches Ok(m) ==> matrix_width(m) == cols,
        r matches Ok(m) ==> matrix_rows(m) == row_major(data@, rows as int, cols as int),
{
    match ndarray::Array2::from_shape_vec((rows, cols), data) {
        Ok(cells) => Ok(LogitMatrix { cells }),
        Err(e) => Err(e),
    }
}

/// `nrows` of `ndarray`: the length of the first axis.
#[verifier::external_body]
fn array_nrows(m: &LogitMatrix) -> (n: usize)
    ensures
        n == matrix_rows(*m).len(),
{
    m.cells.nrows()
}

/// `ncols` of `ndarray`: the length of the second axis, which every row has.
#[verifier::external_body]
fn array_ncols(m: &LogitMatrix) -> (n: usize)
    ensures
        n == matrix_width(*m),
        forall|i: int| 0 <= i < matrix_rows(*m).len() ==> (#[trigger] matrix_rows(*m)[i]).len() == n,
{
    m.cells.ncols()
}

/// Indexing an `ndarray` array by `[i, j]`, which panics outside the array.
#[verifier::external_body]
fn array_get(m: &LogitMatrix, i: usize, j: usize) -> (v: u32)
    requires
        i < matrix_rows(*m).len(),
        j < matrix_width(*m),
    ensures
        v == matrix_rows(*m)[i as int][j as int],
{
    m.cells[[i, j]]
}

/// `slice_axis` of `ndarray` along the first axis with step 1, copied into an
/// array of its own by `to_owned`. The slice panics unless
/// `start <= end <= nrows`; it keeps the rows in that range and the width.
#[verifier::external_body]
pub(crate) fn array_slice_rows(m: &LogitMatrix, start: usize, end: usize) -> (part: LogitMatrix)
    requires
        start <= end <= matrix_rows(*m).len(),
    ensures
        matrix_rows(part) == matrix_rows(*m).subrange(start as int, end as int),
        matrix_width(part) == matrix_width(*m),
{
    let rows = m.cells.slice_axis(ndarray::Axis(0), ndarray::Slice::from(start..end));
    LogitMatrix { cells: rows.to_owned() }
}

/// `ndarray::concatenate` along the first axis. It adds up the row counts
/// unchecked, so their sum has to fit. It fails on an empty list, on
/// matrices of different widths and on a result whose shape cannot exist,
/// and on nothing else; the result is as wide as the matrices and holds the
/// rows of the first matrix, then those of the second, and so on.
#[verifier::external_body]
pub(crate) fn array_concatenate(parts: &Vec<LogitMatrix>) -> (r: Result<LogitMatrix, ndarray::ShapeError>)
    requires
        joined_rows(parts@).len() <= usize::MAX,
    ensures
        r.is_ok() == can_join(parts@),
        r matches Ok(m) ==> matrix_width(m) == matrix_width(parts[0]),
        r matches Ok(m) ==> matrix_rows(m) == joined_rows(parts@),
{
    let views: Vec<ndarray::ArrayView2<u32>> = parts.iter().map(|p| p.cells.view()).collect();
    match ndarray::concatenate(ndarray::Axis(0), &views) {
        Ok(cells) => Ok(LogitMatrix { cells }),
        Err(e) => Err(e),
    }
}

} // verus!
