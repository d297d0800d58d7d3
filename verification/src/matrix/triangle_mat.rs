//! Triangular matrices that store only their triangle, row by row.

use crate::algebra::{backward_solution, forward_solution, with_entry};
use crate::base_float::BaseFloat;
use crate::index2d::{lemma_packed_len_monotonic, lemma_triangle_number, packed_len};
use crate::packed::{
    from_packed, in_triangle, is_packed_len, lemma_next_row_start,
    lemma_packed_offset_injective_order, lemma_storage_end, packed_entry, packed_index,
    packed_offset, packed_row_first, packed_row_len, packed_solve, set_packed_entry,
};
use vstd::prelude::*;

verus! {

/// Which triangle of the matrix is stored.
#[derive(Debug, Clone, Copy, PartialEq, Eq, Structural)]
pub enum TriangleMatType {
    Upper,
    Lower,
}

/// A triangular matrix of size `n`: the `n * (n + 1) / 2` entries of its
/// triangle, row by row. Every entry outside the triangle is zero.
#[derive(Debug, Clone)]
pub struct TriFullMat<T> {
    pub ty: TriangleMatType,
    n: usize,
    storage: Vec<T>,
}

impl<T: BaseFloat> View for TriFullMat<T> {
    type V = Seq<Seq<T>>;

    /// The rows of the matrix, top to bottom, zeros included.
    closed spec fn view(&self) -> Seq<Seq<T>> {
        from_packed(self.storage@, self.ty, self.n as int)
    }
}

impl<T: BaseFloat> TriFullMat<T> {
    /// The storage holds exactly the triangle.
    pub closed spec fn wf(&self) -> bool {
        self.storage.len() == packed_len(self.n as int)
    }

    /// The number of rows, which is the number of columns.
    pub closed spec fn size(&self) -> int {
        self.n as int
    }

    /// Which triangle is stored.
    pub closed spec fn kind(&self) -> TriangleMatType {
        self.ty
    }

    /// The entries that were stored, in their order.
    pub closed spec fn packed(&self) -> Seq<T> {
        self.storage@
    }

    /// The view is a square of the matrix's size; inside the triangle it
    /// shows the stored entries, outside of it zeros.
    pub proof fn lemma_view(&self)
        requires
            self.wf(),
        ensures
            self@ == from_packed(self.packed(), self.kind(), self.size()),
            self@.len() == self.size(),
            self.packed().len() == packed_len(self.size()),
            forall|i: int| 0 <= i < self.size() ==> (#[trigger] self@[i]).len() == self.size(),
            forall|i: int, j: int|
                0 <= i < self.size() && 0 <= j < self.size() ==> #[trigger] self@[i][j] == (
                if in_triangle(self.kind(), i, j) {
                    self.packed()[packed_offset(self.kind(), i, j, self.size())]
                } else {
                    T::zero_value()
                }),
    {
    }

    fn index_in_vec(&self, index: (usize, usize)) -> (offset: usize)
        requires
            self.wf(),
            index.0 < self.size(),
            index.1 < self.size(),
            in_triangle(self.ty, index.0 as int, index.1 as int),
        ensures
            offset == packed_offset(self.ty, index.0 as int, index.1 as int, self.size()),
            offset < self.storage.len(),
    {
        packed_index(self.ty, self.n, index.0, index.1)
    }

    /// Builds the matrix from the rows of its triangle: row `i` of an upper
    /// triangle holds the columns `i..n`, row `i` of a lower triangle the
    /// columns `0..=i`.
    pub fn from_rows(ty: TriangleMatType, rows: Vec<Vec<T>>) -> (mat: Self)
        requires
            rows.len() > 0,
            forall|i: int|
                0 <= i < rows.len() ==> (#[trigger] rows[i]).len() == packed_row_len(
                    ty,
                    i,
                    rows.len() as int,
                ),
        ensures
            mat.wf(),
            mat.kind() == ty,
            mat.size() == rows.len(),
            forall|i: int, j: int|
                0 <= i < rows.len() && 0 <= j < rows.len() && in_triangle(ty, i, j)
                    ==> #[trigger] mat@[i][j] == rows[i][j - packed_row_first(ty, i)],
    {
        let n: usize = rows.len();
        let mut storage: Vec<T> = Vec::new();
        let mut i: usize = 0;
        while i < n
            invariant
                0 <= i <= n,
                n == rows.len(),
                forall|r: int|
                    0 <= r < n ==> (#[trigger] rows[r]).len() == packed_row_len(ty, r, n as int),
                storage.len() == packed_offset(
                    ty,
                    i as int,
                    packed_row_first(ty, i as int),
                    n as int,
                ),
                forall|r: int, c: int|
                    0 <= r < i && 0 <= c < n && in_triangle(ty, r, c) ==> storage@[
                    #[trigger] packed_offset(ty, r, c, n as int)] == rows[r][c - packed_row_first(
                        ty,
                        r,
                    )],
            decreases n - i,
        {
            let row = &rows[i];
            let len: usize = row.len();
            let ghost first = packed_row_first(ty, i as int);
            let mut j: usize = 0;
            while j < len
                invariant
                    0 <= j <= len,
                    0 <= i < n,
                    n == rows.len(),
                    row == rows[i as int],
                    len == row.len(),
                    len == packed_row_len(ty, i as int, n as int),
                    first == packed_row_first(ty, i as int),
                    storage.len() == packed_offset(ty, i as int, first + j, n as int),
                    forall|r: int, c: int|
                        0 <= r < i && 0 <= c < n && in_triangle(ty, r, c) ==> storage@[
                        #[trigger] packed_offset(ty, r, c, n as int)] == rows[r][c
                            - packed_row_first(ty, r)],
                    forall|c: int|
                        first <= c < first + j ==> storage@[#[trigger] packed_offset(
                            ty,
                            i as int,
                            c,
                            n as int,
                        )] == rows[i as int][c - first],
                decreases len - j,
            {
                proof {
                    assert forall|r: int, c: int|
                        0 <= r < i && 0 <= c < n && in_triangle(ty, r, c) implies
                        #[trigger] packed_offset(ty, r, c, n as int) < storage.len() by {
                        lemma_packed_offset_injective_order(
                            ty,
                            r,
                            c,
                            i as int,
                            first + j,
                            n as int,
                        );
                    }
                }
                storage.push(row[j]);
                j += 1;
            }
            proof {
                lemma_next_row_start(ty, i as int, n as int);
            }
            i += 1;
        }
        proof {
            lemma_next_row_start(ty, n as int - 1, n as int);
            lemma_storage_end(ty, n as int);
        }
        Self { ty, n, storage }
    }

    /// Builds the matrix from the entries of its triangle, row by row. The
    /// size is the one whose triangle has exactly that many entries.
    pub fn from_vec(ty: TriangleMatType, elements: Vec<T>) -> (mat: Self)
        requires
            is_packed_len(elements.len() as int),
        ensures
            mat.wf(),
            mat.kind() == ty,
            mat.packed() == elements@,
            0 <= mat.size(),
            packed_len(mat.size()) == elements.len(),
    {
        let ghost m = choose|m: int| 0 <= m && #[trigger] packed_len(m) == elements.len();
        let mut left: usize = elements.len();
        let mut n: usize = 0;
        while left > n
            invariant
                0 <= m,
                packed_len(m) == elements.len(),
                left + packed_len(n as int) == elements.len(),
                n <= m,
            decreases left,
        {
            proof {
                lemma_triangle_number(n as int);
                if n == m {
                    assert(false);
                }
                lemma_packed_len_monotonic(n as int + 1, m);
            }
            left -= n + 1;
            n += 1;
        }
        proof {
            lemma_triangle_number(n as int);
            if n < m {
                lemma_packed_len_monotonic(n as int + 1, m);
            }
        }
        Self { ty, n, storage: elements }
    }

    /// `(rows, columns)`, both the size of the matrix.
    pub fn shape(&self) -> (shape: (usize, usize))
        ensures
            shape.0 == self.size(),
            shape.1 == self.size(),
    {
        (self.n, self.n)
    }

    /// The number of rows.
    pub fn row_count(&self) -> (count: usize)
        ensures
            count == self.size(),
    {
        self.n
    }

    /// The number of columns.
    pub fn col_count(&self) -> (count: usize)
        ensures
            count == self.size(),
    {
        self.n
    }

    /// The entry at `index`, given as `(row, column)`: the stored entry inside
    /// the triangle, zero outside of it.
    pub fn get(&self, index: (usize, usize)) -> (value: T)
        requires
            self.wf(),
            index.0 < self.size(),
            index.1 < self.size(),
        ensures
            value == self@[index.0 as int][index.1 as int],
    {
        packed_entry(&self.storage, self.ty, self.n, index.0, index.1)
    }

    /// Replaces the entry at `index`, given as `(row, column)`, which has to
    /// lie inside the triangle.
    pub fn set(&mut self, index: (usize, usize), value: T)
        requires
            old(self).wf(),
            index.0 < old(self).size(),
            index.1 < old(self).size(),
            in_triangle(old(self).kind(), index.0 as int, index.1 as int),
        ensures
            final(self).wf(),
            final(self).kind() == old(self).kind(),
            final(self).size() == old(self).size(),
            final(self)@ == with_entry(old(self)@, index.0 as int, index.1 as int, value),
    {
        set_packed_entry(&mut self.storage, self.ty, self.n, index.0, index.1, value);
    }

    /// Solves `self * x = b` for `x`: by forward substitution where the
    /// matrix is lower triangular, by backward substitution where it is upper
    /// triangular. Each unknown is divided by the diagonal entry of its row.
    pub fn solve(&self, b: Vec<T>) -> (x: Vec<T>)
        requires
            self.wf(),
            self.size() == b.len(),
        ensures
            x.len() == b.len(),
            x@ == match self.kind() {
                TriangleMatType::Lower => forward_solution(self@, b@, b.len() as int),
                TriangleMatType::Upper => backward_solution(self@, b@, 0),
            },
    {
        packed_solve(&self.storage, self.ty, self.n, &b)
    }

    /// Which triangle is stored.
    pub fn triangle(&self) -> (ty: TriangleMatType)
        ensures
            ty == self.kind(),
    {
        self.ty
    }

    /// The stored entries, row by row.
    pub fn as_packed(&self) -> (packed: &Vec<T>)
        ensures
            packed@ == self.packed(),
    {
        &self.storage
    }

    /// The stored entries, given up by the matrix.
    pub fn into_packed(self) -> (packed: Vec<T>)
        ensures
            packed@ == self.packed(),
    {
        self.storage
    }
}

} // verus!
