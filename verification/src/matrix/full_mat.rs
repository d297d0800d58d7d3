//! Dense matrices stored row by row in one flat vector.

use crate::algebra::{
    column, column_sums, dot_range, entries_swapped, from_row_major, is_matrix, magnitude_sum,
    magnitudes, mat_add, mat_mul, mat_mul_sized, mat_sub, mat_vec, max_from_zero, one_norm,
    row_major, rows_swapped, with_entry,
};
use crate::base_float::BaseFloat;
use crate::helpers::{add_entries, copied, sub_entries};
use crate::index2d::{full_offset, lemma_full_offset_in_range, lemma_whole_rows};
use crate::row_major::{exchange_rows, product_entries, set_entry};
use vstd::prelude::*;

verus! {

/// A dense matrix with at least one row and one column.
///
/// The entries are stored row by row; the number of columns together with
/// the length of the storage gives the number of rows.
#[derive(Debug)]
pub struct FullMat<T> {
    storage: Vec<T>,
    col_count: usize,
}

impl<T> View for FullMat<T> {
    type V = Seq<Seq<T>>;

    /// The rows of the matrix, top to bottom.
    closed spec fn view(&self) -> Seq<Seq<T>> {
        from_row_major(
            self.storage@,
            (self.storage.len() / self.col_count) as int,
            self.col_count as int,
        )
    }
}

impl<T> FullMat<T> {
    /// The storage holds a whole, positive number of rows of positive length.
    pub closed spec fn wf(&self) -> bool {
        &&& self.col_count > 0
        &&& self.storage.len() > 0
        &&& self.storage.len() % self.col_count == 0
    }

    /// The number of rows.
    pub open spec fn rows(&self) -> int {
        self@.len() as int
    }

    /// The number of columns.
    pub open spec fn cols(&self) -> int {
        self@[0].len() as int
    }

    /// A well-formed matrix is a matrix: every row has the same positive
    /// length, and there is at least one row.
    pub proof fn lemma_wf_is_matrix(&self)
        requires
            self.wf(),
        ensures
            is_matrix(self@),
            self.rows() * self.cols() <= usize::MAX,
    {
        let n = self.storage.len() as int;
        let c = self.col_count as int;
        assert(n / c > 0 && (n / c) * c == n) by (nonlinear_arith)
            requires
                n > 0,
                c > 0,
                n % c == 0,
        ;
    }

    proof fn lemma_layout(&self)
        requires
            self.wf(),
        ensures
            is_matrix(self@),
            self.cols() == self.col_count,
            self.rows() == self.storage.len() / self.col_count,
            self.rows() * self.cols() == self.storage.len(),
            self@ == from_row_major(self.storage@, self.rows(), self.cols()),
    {
        let n = self.storage.len() as int;
        let c = self.col_count as int;
        assert(n / c > 0 && (n / c) * c == n) by (nonlinear_arith)
            requires
                n > 0,
                c > 0,
                n % c == 0,
        ;
    }

    fn index_in_vec(&self, index: (usize, usize)) -> (offset: usize)
        requires
            self.wf(),
            index.0 < self.rows(),
            index.1 < self.cols(),
        ensures
            offset == full_offset(index.0 as int, index.1 as int, self.col_count as int),
            offset < self.storage.len(),
    {
        proof {
            self.lemma_layout();
            lemma_full_offset_in_range(
                index.0 as int,
                index.1 as int,
                self.rows(),
                self.col_count as int,
            );
        }
        index.0 * self.col_count + index.1
    }

    /// Builds the matrix whose rows are `elements` cut into pieces of
    /// `col_count` entries.
    pub fn from_vec(col_count: usize, elements: Vec<T>) -> (mat: Self)
        requires
            col_count > 0,
            elements.len() > 0,
            elements.len() % col_count == 0,
        ensures
            mat.wf(),
            mat@ == from_row_major(
                elements@,
                (elements.len() / col_count) as int,
                col_count as int,
            ),
    {
        Self { col_count, storage: elements }
    }

    /// `(rows, columns)`.
    pub fn shape(&self) -> (shape: (usize, usize))
        requires
            self.wf(),
        ensures
            shape.0 == self.rows(),
            shape.1 == self.cols(),
    {
        proof {
            self.lemma_layout();
        }
        (self.storage.len() / self.col_count, self.col_count)
    }

    /// The number of columns.
    pub fn col_count(&self) -> (count: usize)
        requires
            self.wf(),
        ensures
            count == self.cols(),
    {
        proof {
            self.lemma_layout();
        }
        self.col_count
    }

    /// The number of rows.
    pub fn row_count(&self) -> (count: usize)
        requires
            self.wf(),
        ensures
            count == self.rows(),
    {
        proof {
            self.lemma_layout();
        }
        self.storage.len() / self.col_count
    }

    /// Whether the matrix has as many rows as columns.
    pub fn is_square(&self) -> (square: bool)
        requires
            self.wf(),
        ensures
            square == (self.rows() == self.cols()),
    {
        self.row_count() == self.col_count()
    }
}

impl<T: Copy> FullMat<T> {
    /// Builds the matrix with the given rows.
    pub fn from_rows(rows: Vec<Vec<T>>) -> (mat: Self)
        requires
            rows.len() > 0,
            rows[0].len() > 0,
            forall|i: int| 0 <= i < rows.len() ==> (#[trigger] rows[i]).len() == rows[0].len(),
        ensures
            mat.wf(),
            mat@.len() == rows.len(),
            forall|i: int| 0 <= i < rows.len() ==> #[trigger] mat@[i] == rows[i]@,
    {
        let col_count: usize = rows[0].len();
        let mut storage: Vec<T> = Vec::new();
        let mut i: usize = 0;
        while i < rows.len()
            invariant
                0 <= i <= rows.len(),
                col_count > 0,
                col_count == rows[0].len(),
                forall|r: int| 0 <= r < rows.len() ==> (#[trigger] rows[r]).len() == col_count,
                storage.len() == i * col_count,
                forall|r: int, c: int|
                    0 <= r < i && 0 <= c < col_count ==> storage@[#[trigger] full_offset(
                        r,
                        c,
                        col_count as int,
                    )] == rows[r][c],
            decreases rows.len() - i,
        {
            let row = &rows[i];
            let mut j: usize = 0;
            while j < col_count
                invariant
                    0 <= j <= col_count,
                    0 <= i < rows.len(),
                    row == rows[i as int],
                    row.len() == col_count,
                    storage.len() == i * col_count + j,
                    forall|r: int, c: int|
                        0 <= r < i && 0 <= c < col_count ==> storage@[#[trigger] full_offset(
                            r,
                            c,
                            col_count as int,
                        )] == rows[r][c],
                    forall|c: int|
                        0 <= c < j ==> storage@[#[trigger] full_offset(
                            i as int,
                            c,
                            col_count as int,
                        )] == rows[i as int][c],
                decreases col_count - j,
            {
                proof {
                    assert forall|r: int, c: int| 0 <= r < i && 0 <= c < col_count implies
                        #[trigger] full_offset(r, c, col_count as int) < i * col_count by {
                        lemma_full_offset_in_range(r, c, i as int, col_count as int);
                    }
                }
                storage.push(row[j]);
                j += 1;
            }
            proof {
                assert((i + 1) * col_count == i * col_count + col_count) by (nonlinear_arith);
            }
            i += 1;
        }
        let mat = Self { col_count, storage };
        proof {
            let c = col_count as int;
            lemma_whole_rows(mat.storage.len() as int, rows.len() as int, c);
            assert forall|i: int| 0 <= i < rows.len() implies #[trigger] mat@[i] == rows[i]@ by {
                assert forall|j: int| 0 <= j < c implies mat@[i][j] == rows[i]@[j] by {
                    assert(mat@[i][j] == mat.storage@[full_offset(i, j, c)]);
                }
                assert(mat@[i] =~= rows[i]@);
            }
        }
        mat
    }

    /// The entry at `index`, given as `(row, column)`.
    pub fn get(&self, index: (usize, usize)) -> (value: T)
        requires
            self.wf(),
            index.0 < self.rows(),
            index.1 < self.cols(),
        ensures
            value == self@[index.0 as int][index.1 as int],
    {
        proof {
            self.lemma_layout();
        }
        let offset = self.index_in_vec(index);
        self.storage[offset]
    }

    /// Replaces the entry at `index`, given as `(row, column)`.
    pub fn set(&mut self, index: (usize, usize), value: T)
        requires
            old(self).wf(),
            index.0 < old(self).rows(),
            index.1 < old(self).cols(),
        ensures
            final(self).wf(),
            final(self)@ == with_entry(old(self)@, index.0 as int, index.1 as int, value),
    {
        proof {
            self.lemma_layout();
        }
        let rows = self.storage.len() / self.col_count;
        set_entry(&mut self.storage, rows, self.col_count, index.0, index.1, value);
    }

    /// Exchanges the entries at `index_a` and `index_b`.
    pub fn swap(&mut self, index_a: (usize, usize), index_b: (usize, usize))
        requires
            old(self).wf(),
            index_a.0 < old(self).rows(),
            index_a.1 < old(self).cols(),
            index_b.0 < old(self).rows(),
            index_b.1 < old(self).cols(),
        ensures
            final(self).wf(),
            final(self)@ == entries_swapped(
                old(self)@,
                (index_a.0 as int, index_a.1 as int),
                (index_b.0 as int, index_b.1 as int),
            ),
    {
        proof {
            self.lemma_wf_is_matrix();
        }
        let value_a = self.get(index_a);
        let value_b = self.get(index_b);
        self.set(index_a, value_b);
        self.set(index_b, value_a);
    }

    /// Exchanges rows `row_a` and `row_b`.
    pub fn swap_row(&mut self, row_a: usize, row_b: usize)
        requires
            old(self).wf(),
            row_a < old(self).rows(),
            row_b < old(self).rows(),
        ensures
            final(self).wf(),
            final(self)@ == rows_swapped(old(self)@, row_a as int, row_b as int),
    {
        proof {
            self.lemma_layout();
        }
        let rows = self.storage.len() / self.col_count;
        exchange_rows(&mut self.storage, rows, self.col_count, row_a, row_b);
    }
}

impl<T: BaseFloat> FullMat<T> {
    /// The storage is the row-major sequence of the entries.
    proof fn lemma_storage_is_row_major(&self)
        requires
            self.wf(),
        ensures
            self.storage@ == row_major(self@),
    {
        self.lemma_layout();
        let c = self.col_count as int;
        assert forall|k: int| 0 <= k < self.storage.len() implies self.storage@[k] == row_major(
            self@,
        )[k] by {
            vstd::arithmetic::div_mod::lemma_fundamental_div_mod(k, c);
            vstd::arithmetic::div_mod::lemma_div_pos_is_pos(k, c);
            assert(c * (k / c) == (k / c) * c) by (nonlinear_arith);
            assert(full_offset(k / c, k % c, c) == k);
            if k / c >= self.rows() {
                assert((k / c) * c >= self.rows() * c) by (nonlinear_arith)
                    requires
                        k / c >= self.rows(),
                        c > 0,
                ;
            }
        }
        assert(self.storage@ =~= row_major(self@));
    }

    /// The product `self * rhs`.
    pub fn mul_mat(&self, rhs: &FullMat<T>) -> (product: FullMat<T>)
        requires
            self.wf(),
            rhs.wf(),
            rhs.rows() == self.cols(),
        ensures
            product.wf(),
            product@ == mat_mul(self@, rhs@),
    {
        proof {
            self.lemma_layout();
            rhs.lemma_layout();
        }
        let rows = self.row_count();
        let inner = self.col_count();
        let cols = rhs.col_count();
        let v = product_entries(&self.storage, &rhs.storage, rows, inner, cols);
        proof {
            lemma_whole_rows(v.len() as int, rows as int, cols as int);
            assert(mat_mul(self@, rhs@) =~= mat_mul_sized(
                self@,
                rhs@,
                rows as int,
                inner as int,
                cols as int,
            ));
        }
        FullMat::from_vec(cols, v)
    }

    /// The product of the matrix and the vector `rhs`.
    pub fn mul_vec(&self, rhs: &Vec<T>) -> (product: Vec<T>)
        requires
            self.wf(),
            self.cols() == rhs.len(),
        ensures
            product@ == mat_vec(self@, rhs@),
    {
        proof {
            self.lemma_wf_is_matrix();
        }
        let rows = self.row_count();
        let cols = self.col_count();
        let mut v: Vec<T> = Vec::new();
        let mut i: usize = 0;
        while i < rows
            invariant
                0 <= i <= rows,
                self.wf(),
                is_matrix(self@),
                rows == self.rows(),
                cols == self.cols(),
                cols == rhs.len(),
                v.len() == i,
                forall|r: int| 0 <= r < i ==> #[trigger] v@[r] == mat_vec(self@, rhs@)[r],
            decreases rows - i,
        {
            let mut elem = T::zero();
            let mut j: usize = 0;
            while j < cols
                invariant
                    0 <= j <= cols,
                    0 <= i < rows,
                    self.wf(),
                    is_matrix(self@),
                    rows == self.rows(),
                    cols == self.cols(),
                    cols == rhs.len(),
                    elem == dot_range(self@[i as int], rhs@, 0, j as int),
                decreases cols - j,
            {
                elem = elem.add(self.get((i, j)).mul(rhs[j]));
                j += 1;
            }
            v.push(elem);
            i += 1;
        }
        assert(v@ =~= mat_vec(self@, rhs@));
        v
    }

    /// The entrywise sum `self + rhs`.
    pub fn add(&self, rhs: &FullMat<T>) -> (sum: Self)
        requires
            self.wf(),
            rhs.wf(),
            self.rows() == rhs.rows(),
            self.cols() == rhs.cols(),
        ensures
            sum.wf(),
            sum@ == mat_add(self@, rhs@),
    {
        proof {
            self.lemma_layout();
            rhs.lemma_layout();
        }
        let sum = Self::from_vec(self.col_count, add_entries(&self.storage, &rhs.storage));
        proof {
            sum.lemma_layout();
            let expected = mat_add(self@, rhs@);
            assert forall|i: int| 0 <= i < self.rows() implies #[trigger] sum@[i]
                =~= expected[i] by {
                assert forall|j: int| 0 <= j < self.cols() implies sum@[i][j]
                    == expected[i][j] by {
                    lemma_full_offset_in_range(i, j, self.rows(), self.cols());
                }
            }
            assert(sum@ =~= expected);
        }
        sum
    }

    /// The entrywise difference `self - rhs`.
    pub fn sub(&self, rhs: &FullMat<T>) -> (difference: Self)
        requires
            self.wf(),
            rhs.wf(),
            self.rows() == rhs.rows(),
            self.cols() == rhs.cols(),
        ensures
            difference.wf(),
            difference@ == mat_sub(self@, rhs@),
    {
        proof {
            self.lemma_layout();
            rhs.lemma_layout();
        }
        let difference = Self::from_vec(self.col_count, sub_entries(&self.storage, &rhs.storage));
        proof {
            difference.lemma_layout();
            let expected = mat_sub(self@, rhs@);
            assert forall|i: int| 0 <= i < self.rows() implies #[trigger] difference@[i]
                =~= expected[i] by {
                assert forall|j: int| 0 <= j < self.cols() implies difference@[i][j]
                    == expected[i][j] by {
                    lemma_full_offset_in_range(i, j, self.rows(), self.cols());
                }
            }
            assert(difference@ =~= expected);
        }
        difference
    }

    /// The largest magnitude of an entry.
    pub fn element_max_abs(&self) -> (largest: T)
        requires
            self.wf(),
        ensures
            largest == max_from_zero(
                magnitudes(row_major(self@)),
                self.rows() * self.cols(),
            ),
    {
        proof {
            self.lemma_layout();
            self.lemma_storage_is_row_major();
        }
        let len = self.storage.len();
        let mut largest = T::zero();
        let mut k: usize = 0;
        while k < len
            invariant
                0 <= k <= len,
                len == self.storage.len(),
                self.storage@ == row_major(self@),
                largest == max_from_zero(magnitudes(row_major(self@)), k as int),
            decreases len - k,
        {
            largest = largest.max(self.storage[k].abs());
            k += 1;
        }
        largest
    }

    /// The induced 1-norm of a square matrix: the largest sum of the
    /// magnitudes of a column.
    pub fn norm(&self) -> (norm: T)
        requires
            self.wf(),
            self.rows() == self.cols(),
        ensures
            norm == one_norm(self@),
    {
        proof {
            self.lemma_wf_is_matrix();
        }
        let n = self.col_count();
        let mut col_sums: Vec<T> = Vec::new();
        let mut j: usize = 0;
        while j < n
            invariant
                0 <= j <= n,
                self.wf(),
                is_matrix(self@),
                n == self.cols(),
                n == self.rows(),
                col_sums.len() == j,
                forall|c: int| 0 <= c < j ==> #[trigger] col_sums@[c] == column_sums(self@)[c],
            decreases n - j,
        {
            let mut sum = T::zero();
            let mut i: usize = 0;
            while i < n
                invariant
                    0 <= i <= n,
                    0 <= j < n,
                    self.wf(),
                    is_matrix(self@),
                    n == self.cols(),
                    n == self.rows(),
                    sum == magnitude_sum(column(self@, j as int), i as int),
                decreases n - i,
            {
                sum = sum.add(self.get((i, j)).abs());
                i += 1;
            }
            col_sums.push(sum);
            j += 1;
        }
        assert(col_sums@ =~= column_sums(self@));
        let mut norm = T::zero();
        let mut k: usize = 0;
        while k < n
            invariant
                0 <= k <= n,
                n == self.cols(),
                col_sums.len() == n,
                col_sums@ == column_sums(self@),
                norm == max_from_zero(col_sums@, k as int),
            decreases n - k,
        {
            norm = norm.max(col_sums[k]);
            k += 1;
        }
        norm
    }
}

impl<T: Copy> Clone for FullMat<T> {
    /// A matrix with the same entries in storage of its own.
    fn clone(&self) -> (copy: Self)
        ensures
            copy@ == self@,
            copy.wf() == self.wf(),
    {
        Self { storage: copied(&self.storage), col_count: self.col_count }
    }
}

} // verus!
