//! Conversion of two-dimensional matrix coordinates into offsets of the flat
//! storage, for the row-major, packed lower-triangular and packed
//! upper-triangular layouts.

use vstd::prelude::*;

verus! {

/// Offset of `(row, col)` in row-major storage with `col_size` columns.
pub open spec fn full_offset(row: int, col: int, col_size: int) -> int {
    row * col_size + col
}

/// Offset of `(row, col)` in packed lower-triangular storage, where row `r`
/// holds its first `r + 1` entries.
pub open spec fn lower_offset(row: int, col: int) -> int {
    row * (row + 1) / 2 + col
}

/// Offset of `(row, col)` in packed upper-triangular storage of an `n * n`
/// matrix, where row `r` holds its last `n - r` entries.
pub open spec fn upper_offset(row: int, col: int, n: int) -> int {
    (2 * n - row - 1) * row / 2 + col
}

/// Number of entries of packed triangular storage for an `n * n` matrix.
pub open spec fn packed_len(n: int) -> int {
    n * (n + 1) / 2
}

/// Half of the product of two numbers of which the second is the first plus
/// one: the product is even, so nothing is lost.
pub proof fn lemma_triangle_number(r: int)
    requires
        0 <= r,
    ensures
        r * (r + 1) % 2 == 0,
        (r + 1) * (r + 2) / 2 == r * (r + 1) / 2 + r + 1,
        r * (r + 1) / 2 >= 0,
    decreases r,
{
    if r > 0 {
        lemma_triangle_number(r - 1);
        assert((r - 1) * r == r * (r + 1) - 2 * r) by (nonlinear_arith);
    } else {
        assert(r * (r + 1) == 0) by (nonlinear_arith)
            requires
                r == 0,
        ;
    }
    assert((r + 1) * (r + 2) == r * (r + 1) + 2 * (r + 1)) by (nonlinear_arith);
}

/// Packed lengths grow with the size.
pub proof fn lemma_packed_len_monotonic(a: int, b: int)
    requires
        0 <= a <= b,
    ensures
        0 <= packed_len(a) <= packed_len(b),
    decreases b - a,
{
    lemma_triangle_number(a);
    if a < b {
        lemma_triangle_number(b - 1);
        lemma_packed_len_monotonic(a, b - 1);
    }
}

/// Row-major offsets of positions inside a `rows * cols` matrix lie inside
/// its storage.
pub proof fn lemma_full_offset_in_range(row: int, col: int, rows: int, cols: int)
    requires
        0 <= row < rows,
        0 <= col < cols,
    ensures
        0 <= full_offset(row, col, cols) < rows * cols,
        0 <= row * cols,
{
    assert(row * cols >= 0) by (nonlinear_arith)
        requires
            0 <= row,
            0 <= cols,
    ;
    assert((row + 1) * cols <= rows * cols) by (nonlinear_arith)
        requires
            row + 1 <= rows,
            0 <= cols,
    ;
    assert((row + 1) * cols == row * cols + cols) by (nonlinear_arith);
}

/// A storage of `rows * cols` entries, with `rows` and `cols` positive, holds
/// a whole number of rows: `rows` of them.
pub proof fn lemma_whole_rows(len: int, rows: int, cols: int)
    requires
        len == rows * cols,
        rows > 0,
        cols > 0,
    ensures
        len > 0,
        len % cols == 0,
        len / cols == rows,
{
    assert(len % cols == 0 && len / cols == rows && len > 0) by (nonlinear_arith)
        requires
            len == rows * cols,
            cols > 0,
            rows > 0,
    ;
}

/// Distinct positions of a row-major matrix have distinct offsets.
pub proof fn lemma_full_offset_injective(r1: int, c1: int, r2: int, c2: int, cols: int)
    requires
        0 <= c1 < cols,
        0 <= c2 < cols,
        0 <= r1,
        0 <= r2,
        full_offset(r1, c1, cols) == full_offset(r2, c2, cols),
    ensures
        r1 == r2,
        c1 == c2,
{
    if r1 < r2 {
        assert((r1 + 1) * cols <= r2 * cols) by (nonlinear_arith)
            requires
                r1 + 1 <= r2,
                0 <= cols,
        ;
        assert((r1 + 1) * cols == r1 * cols + cols) by (nonlinear_arith);
    } else if r2 < r1 {
        assert((r2 + 1) * cols <= r1 * cols) by (nonlinear_arith)
            requires
                r2 + 1 <= r1,
                0 <= cols,
        ;
        assert((r2 + 1) * cols == r2 * cols + cols) by (nonlinear_arith);
    }
}

/// Packed lower-triangular offsets of positions on or below the diagonal lie
/// inside the storage, and row `row` starts where row `row - 1` ends.
pub proof fn lemma_lower_offset_in_range(row: int, col: int, n: int)
    requires
        0 <= col <= row < n,
    ensures
        packed_len(row) <= lower_offset(row, col) < packed_len(row + 1) <= packed_len(n),
        0 <= packed_len(row),
{
    lemma_triangle_number(row);
    lemma_packed_len_monotonic(row + 1, n);
}

/// Distinct positions on or below the diagonal have distinct packed offsets.
pub proof fn lemma_lower_offset_injective(r1: int, c1: int, r2: int, c2: int)
    requires
        0 <= c1 <= r1,
        0 <= c2 <= r2,
        lower_offset(r1, c1) == lower_offset(r2, c2),
    ensures
        r1 == r2,
        c1 == c2,
{
    lemma_lower_offset_in_range(r1, c1, r1 + 1);
    lemma_lower_offset_in_range(r2, c2, r2 + 1);
    if r1 < r2 {
        lemma_packed_len_monotonic(r1 + 1, r2);
    } else if r2 < r1 {
        lemma_packed_len_monotonic(r2 + 1, r1);
    }
}

/// Offset at which row `row` of packed upper-triangular storage starts.
pub open spec fn upper_row_start(row: int, n: int) -> int {
    (2 * n - row - 1) * row / 2
}

/// Row `row` of packed upper-triangular storage starts `n - row` entries
/// before the next row, shifted so that offset and column agree on the
/// diagonal.
pub proof fn lemma_upper_row_start(row: int, n: int)
    requires
        0 <= row < n,
    ensures
        upper_row_start(row, n) == row * n - packed_len(row),
        upper_row_start(row + 1, n) == upper_row_start(row, n) + n - row - 1,
        upper_row_start(row, n) >= 0,
{
    lemma_triangle_number(row);
    lemma_triangle_number(row + 1);
    assert((2 * n - row - 1) * row == 2 * (row * n) - row * (row + 1)) by (nonlinear_arith);
    assert((2 * n - (row + 1) - 1) * (row + 1) == 2 * ((row + 1) * n) - (row + 1) * (row + 2))
        by (nonlinear_arith);
    assert((row + 1) * n == row * n + n) by (nonlinear_arith);
    lemma_packed_len_monotonic(row, n);
    assert(row * n >= row * (row + 1)) by (nonlinear_arith)
        requires
            0 <= row,
            row + 1 <= n,
    ;
}

/// The start of a later row of packed upper-triangular storage lies at least
/// as far as the end of an earlier row.
pub proof fn lemma_upper_rows_ordered(r1: int, r2: int, n: int)
    requires
        0 <= r1 <= r2 <= n,
    ensures
        upper_row_start(r1, n) + (r2 - r1) <= upper_row_start(r2, n) + r2 - r1,
        r1 < r2 ==> upper_row_start(r1, n) + n <= upper_row_start(r2, n) + r2,
        upper_row_start(n, n) + n == packed_len(n),
    decreases r2 - r1,
{
    lemma_triangle_number(n);
    assert((2 * n - n - 1) * n == n * (n + 1) - 2 * n) by (nonlinear_arith);
    if r1 < r2 {
        lemma_upper_row_start(r2 - 1, n);
        lemma_upper_rows_ordered(r1, r2 - 1, n);
    }
}

/// Packed upper-triangular offsets of positions on or above the diagonal lie
/// inside the storage.
pub proof fn lemma_upper_offset_in_range(row: int, col: int, n: int)
    requires
        0 <= row <= col < n,
    ensures
        0 <= upper_offset(row, col, n) < packed_len(n),
{
    lemma_upper_row_start(row, n);
    lemma_upper_rows_ordered(row + 1, n, n);
}

/// Distinct positions on or above the diagonal have distinct packed offsets.
pub proof fn lemma_upper_offset_injective(r1: int, c1: int, r2: int, c2: int, n: int)
    requires
        0 <= r1 <= c1 < n,
        0 <= r2 <= c2 < n,
        upper_offset(r1, c1, n) == upper_offset(r2, c2, n),
    ensures
        r1 == r2,
        c1 == c2,
{
    lemma_upper_row_start(r1, n);
    lemma_upper_row_start(r2, n);
    if r1 < r2 {
        lemma_upper_rows_ordered(r1 + 1, r2, n);
    } else if r2 < r1 {
        lemma_upper_rows_ordered(r2 + 1, r1, n);
    }
}

/// A position in a matrix, or the shape of one.
#[derive(Clone, Copy, Debug, PartialEq, Eq, Structural)]
pub struct Index2D {
    pub row: usize,
    pub col: usize,
}

impl Index2D {
    /// Flattens the position into row-major storage with `col_size` columns.
    pub fn full_to_1d(&self, col_size: usize) -> (offset: usize)
        requires
            full_offset(self.row as int, self.col as int, col_size as int) <= usize::MAX,
        ensures
            offset == full_offset(self.row as int, self.col as int, col_size as int),
    {
        assert(self.row * col_size >= 0) by (nonlinear_arith);
        self.row * col_size + self.col
    }

    /// Flattens the position into row-major storage with `col_size` columns.
    pub fn to_1d(&self, col_size: usize) -> (offset: usize)
        requires
            full_offset(self.row as int, self.col as int, col_size as int) <= usize::MAX,
        ensures
            offset == full_offset(self.row as int, self.col as int, col_size as int),
    {
        self.full_to_1d(col_size)
    }

    /// Flattens a position on or below the diagonal into packed
    /// lower-triangular storage.
    pub fn lt_to_1d(&self) -> (offset: usize)
        requires
            self.col <= self.row,
            lower_offset(self.row as int, self.col as int) <= usize::MAX,
        ensures
            offset == lower_offset(self.row as int, self.col as int),
    {
        let row: usize = self.row;
        proof {
            lemma_triangle_number(row as int);
        }
        let start: usize = if row % 2 == 0 {
            assert((row / 2) * (row + 1) == row * (row + 1) / 2) by (nonlinear_arith)
                requires
                    row % 2 == 0,
                    row >= 0,
            ;
            (row / 2) * (row + 1)
        } else {
            assert(row * (row / 2 + 1) == row * (row + 1) / 2) by (nonlinear_arith)
                requires
                    row % 2 == 1,
                    row >= 0,
            ;
            row * (row / 2 + 1)
        };
        start + self.col
    }

    /// Flattens a position on or above the diagonal into packed
    /// upper-triangular storage of a matrix of size `matrix_size`.
    pub fn ut_to_1d(&self, matrix_size: usize) -> (offset: usize)
        requires
            self.row <= self.col < matrix_size,
            packed_len(matrix_size as int) <= usize::MAX,
        ensures
            offset == upper_offset(self.row as int, self.col as int, matrix_size as int),
    {
        let row: usize = self.row;
        let n: usize = matrix_size;
        proof {
            lemma_upper_row_start(row as int, n as int);
            lemma_upper_offset_in_range(row as int, self.col as int, n as int);
        }
        // One of `row` and `2n - row - 1` is even; halving that one first
        // keeps the product inside the storage length.
        let pairs: usize = n - row - 1;
        let start: usize = if row % 2 == 0 {
            assert((row / 2) * (2 * n - row - 1) == (2 * n - row - 1) * row / 2)
                by (nonlinear_arith)
                requires
                    row % 2 == 0,
                    0 <= row < n,
            ;
            assert((row / 2) * (2 * n - row - 1) == (row / 2) * (n + pairs)) by (nonlinear_arith)
                requires
                    pairs == n - row - 1,
            ;
            assert(0 <= (row / 2) * (n + pairs)) by (nonlinear_arith)
                requires
                    0 <= row,
                    0 <= n + pairs,
            ;
            assert(n + pairs <= (row / 2) * (n + pairs) || row / 2 == 0) by (nonlinear_arith)
                requires
                    0 <= row,
                    0 <= n + pairs,
            ;
            if row == 0 {
                assert((2 * n - row - 1) * row == 0) by (nonlinear_arith)
                    requires
                        row == 0,
                ;
                0
            } else {
                (row / 2) * (n + pairs)
            }
        } else {
            assert(row * (n - row / 2 - 1) == (2 * n - row - 1) * row / 2) by (nonlinear_arith)
                requires
                    row % 2 == 1,
                    0 <= row < n,
            ;
            assert(0 <= row * (n - row / 2 - 1)) by (nonlinear_arith)
                requires
                    0 <= row < n,
            ;
            row * (n - row / 2 - 1)
        };
        start + self.col
    }

    /// The number of entries of a full matrix of this shape.
    pub fn area_size(&self) -> (area: usize)
        requires
            self.row * self.col <= usize::MAX,
        ensures
            area == self.row * self.col,
    {
        self.row * self.col
    }

    /// The position with row and column exchanged.
    pub fn transpose(&self) -> (t: Self)
        ensures
            t.row == self.col,
            t.col == self.row,
    {
        Self { row: self.col, col: self.row }
    }
}

impl From<(usize, usize)> for Index2D {
    fn from(value: (usize, usize)) -> (index: Self) {
        Index2D { row: value.0, col: value.1 }
    }
}

impl vstd::std_specs::convert::FromSpecImpl<(usize, usize)> for Index2D {
    open spec fn obeys_from_spec() -> bool {
        true
    }

    open spec fn from_spec(value: (usize, usize)) -> Self {
        Index2D { row: value.0, col: value.1 }
    }
}

} // verus!
