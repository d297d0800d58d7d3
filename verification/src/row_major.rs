//! Operations on the entries of a matrix laid out row by row in one vector,
//! shared by the types that store every entry.

use crate::algebra::{
    column, dot_range, from_row_major, mat_mul_sized, rows_swapped, transposed_sized, with_entry,
};
use crate::base_float::BaseFloat;
use crate::index2d::{full_offset, lemma_full_offset_in_range, lemma_full_offset_injective};
use vstd::prelude::*;

verus! {

/// The entry at `(i, j)` of the `rows * cols` matrix stored in `v`.
pub fn entry<T: Copy>(v: &Vec<T>, rows: usize, cols: usize, i: usize, j: usize) -> (value: T)
    requires
        v.len() == rows * cols,
        i < rows,
        j < cols,
    ensures
        value == from_row_major(v@, rows as int, cols as int)[i as int][j as int],
{
    proof {
        lemma_full_offset_in_range(i as int, j as int, rows as int, cols as int);
    }
    v[i * cols + j]
}

/// Replaces the entry at `(i, j)` of the `rows * cols` matrix stored in `v`.
pub fn set_entry<T: Copy>(v: &mut Vec<T>, rows: usize, cols: usize, i: usize, j: usize, value: T)
    requires
        old(v).len() == rows * cols,
        i < rows,
        j < cols,
    ensures
        final(v).len() == old(v).len(),
        from_row_major(final(v)@, rows as int, cols as int) == with_entry(
            from_row_major(old(v)@, rows as int, cols as int),
            i as int,
            j as int,
            value,
        ),
{
    proof {
        lemma_full_offset_in_range(i as int, j as int, rows as int, cols as int);
    }
    let ghost before = v@;
    v.set(i * cols + j, value);
    proof {
        let now = from_row_major(v@, rows as int, cols as int);
        let expected = with_entry(
            from_row_major(before, rows as int, cols as int),
            i as int,
            j as int,
            value,
        );
        assert forall|r: int| 0 <= r < rows implies #[trigger] now[r] =~= expected[r] by {
            assert forall|c: int| 0 <= c < cols implies now[r][c] == expected[r][c] by {
                lemma_full_offset_in_range(r, c, rows as int, cols as int);
                if full_offset(r, c, cols as int) == full_offset(i as int, j as int, cols as int) {
                    lemma_full_offset_injective(r, c, i as int, j as int, cols as int);
                }
            }
        }
        assert(now =~= expected);
    }
}

/// The entries of the transpose of the `rows * cols` matrix stored in `v`.
pub fn transposed_entries<T: Copy>(v: &Vec<T>, rows: usize, cols: usize) -> (t: Vec<T>)
    requires
        v.len() == rows * cols,
    ensures
        t.len() == v.len(),
        t.len() == cols * rows,
        from_row_major(t@, cols as int, rows as int) == transposed_sized(
            from_row_major(v@, rows as int, cols as int),
            rows as int,
            cols as int,
        ),
{
    let ghost source = from_row_major(v@, rows as int, cols as int);
    let mut t: Vec<T> = Vec::new();
    let mut j: usize = 0;
    while j < cols
        invariant
            0 <= j <= cols,
            v.len() == rows * cols,
            source == from_row_major(v@, rows as int, cols as int),
            t.len() == j * rows,
            forall|c: int, r: int|
                0 <= c < j && 0 <= r < rows ==> t@[#[trigger] full_offset(c, r, rows as int)]
                    == source[r][c],
        decreases cols - j,
    {
        let mut i: usize = 0;
        while i < rows
            invariant
                0 <= i <= rows,
                0 <= j < cols,
                v.len() == rows * cols,
                source == from_row_major(v@, rows as int, cols as int),
                t.len() == j * rows + i,
                forall|c: int, r: int|
                    0 <= c < j && 0 <= r < rows ==> t@[#[trigger] full_offset(c, r, rows as int)]
                        == source[r][c],
                forall|r: int|
                    0 <= r < i ==> t@[#[trigger] full_offset(j as int, r, rows as int)]
                        == source[r][j as int],
            decreases rows - i,
        {
            proof {
                assert forall|c: int, r: int| 0 <= c < j && 0 <= r < rows implies
                    #[trigger] full_offset(c, r, rows as int) < j * rows by {
                    lemma_full_offset_in_range(c, r, j as int, rows as int);
                }
            }
            t.push(entry(v, rows, cols, i, j));
            i += 1;
        }
        proof {
            assert((j + 1) * rows == j * rows + rows) by (nonlinear_arith);
        }
        j += 1;
    }
    proof {
        assert(cols * rows == rows * cols) by (nonlinear_arith);
        let now = from_row_major(t@, cols as int, rows as int);
        let expected = transposed_sized(source, rows as int, cols as int);
        assert forall|c: int| 0 <= c < cols implies #[trigger] now[c] =~= expected[c] by {
            assert forall|r: int| 0 <= r < rows implies now[c][r] == expected[c][r] by {
                assert(now[c][r] == t@[full_offset(c, r, rows as int)]);
            }
        }
        assert(now =~= expected);
    }
    t
}

/// The entries of the product of the `rows * inner` matrix stored in `a` and
/// the `inner * cols` matrix stored in `b`.
pub fn product_entries<T: BaseFloat>(
    a: &Vec<T>,
    b: &Vec<T>,
    rows: usize,
    inner: usize,
    cols: usize,
) -> (product: Vec<T>)
    requires
        a.len() == rows * inner,
        b.len() == inner * cols,
    ensures
        product.len() == rows * cols,
        from_row_major(product@, rows as int, cols as int) == mat_mul_sized(
            from_row_major(a@, rows as int, inner as int),
            from_row_major(b@, inner as int, cols as int),
            rows as int,
            inner as int,
            cols as int,
        ),
{
    let ghost left = from_row_major(a@, rows as int, inner as int);
    let ghost right = from_row_major(b@, inner as int, cols as int);
    let ghost expected = mat_mul_sized(left, right, rows as int, inner as int, cols as int);
    let mut product: Vec<T> = Vec::new();
    let mut i: usize = 0;
    while i < rows
        invariant
            0 <= i <= rows,
            a.len() == rows * inner,
            b.len() == inner * cols,
            left == from_row_major(a@, rows as int, inner as int),
            right == from_row_major(b@, inner as int, cols as int),
            expected == mat_mul_sized(left, right, rows as int, inner as int, cols as int),
            product.len() == i * cols,
            forall|r: int, c: int|
                0 <= r < i && 0 <= c < cols ==> product@[#[trigger] full_offset(r, c, cols as int)]
                    == expected[r][c],
        decreases rows - i,
    {
        let mut j: usize = 0;
        while j < cols
            invariant
                0 <= j <= cols,
                0 <= i < rows,
                a.len() == rows * inner,
                b.len() == inner * cols,
                left == from_row_major(a@, rows as int, inner as int),
                right == from_row_major(b@, inner as int, cols as int),
                expected == mat_mul_sized(left, right, rows as int, inner as int, cols as int),
                product.len() == i * cols + j,
                forall|r: int, c: int|
                    0 <= r < i && 0 <= c < cols ==> product@[#[trigger] full_offset(
                        r,
                        c,
                        cols as int,
                    )] == expected[r][c],
                forall|c: int|
                    0 <= c < j ==> product@[#[trigger] full_offset(i as int, c, cols as int)]
                        == expected[i as int][c],
            decreases cols - j,
        {
            let mut elem = T::zero();
            let mut k: usize = 0;
            while k < inner
                invariant
                    0 <= k <= inner,
                    0 <= i < rows,
                    0 <= j < cols,
                    a.len() == rows * inner,
                    b.len() == inner * cols,
                    left == from_row_major(a@, rows as int, inner as int),
                    right == from_row_major(b@, inner as int, cols as int),
                    elem == dot_range(left[i as int], column(right, j as int), 0, k as int),
                decreases inner - k,
            {
                elem = elem.add(entry(a, rows, inner, i, k).mul(entry(b, inner, cols, k, j)));
                k += 1;
            }
            proof {
                assert forall|r: int, c: int| 0 <= r < i && 0 <= c < cols implies
                    #[trigger] full_offset(r, c, cols as int) < i * cols by {
                    lemma_full_offset_in_range(r, c, i as int, cols as int);
                }
            }
            product.push(elem);
            j += 1;
        }
        proof {
            assert((i + 1) * cols == i * cols + cols) by (nonlinear_arith);
        }
        i += 1;
    }
    proof {
        let now = from_row_major(product@, rows as int, cols as int);
        assert forall|r: int| 0 <= r < rows implies #[trigger] now[r] =~= expected[r] by {
            assert forall|c: int| 0 <= c < cols implies now[r][c] == expected[r][c] by {
                assert(now[r][c] == product@[full_offset(r, c, cols as int)]);
            }
        }
        assert(now =~= expected);
    }
    product
}

/// Exchanges the rows `a` and `b` of the `rows * cols` matrix stored in `v`.
pub fn exchange_rows<T: Copy>(v: &mut Vec<T>, rows: usize, cols: usize, a: usize, b: usize)
    requires
        old(v).len() == rows * cols,
        a < rows,
        b < rows,
    ensures
        final(v).len() == old(v).len(),
        from_row_major(final(v)@, rows as int, cols as int) == rows_swapped(
            from_row_major(old(v)@, rows as int, cols as int),
            a as int,
            b as int,
        ),
{
    let ghost before = from_row_major(v@, rows as int, cols as int);
    if a != b {
        let mut j: usize = 0;
        while j < cols
            invariant
                0 <= j <= cols,
                a != b,
                a < rows,
                b < rows,
                v.len() == rows * cols,
                before.len() == rows,
                forall|r: int| 0 <= r < rows ==> (#[trigger] before[r]).len() == cols,
                forall|r: int|
                    0 <= r < rows && r != a && r != b ==> #[trigger] from_row_major(
                        v@,
                        rows as int,
                        cols as int,
                    )[r] == before[r],
                forall|c: int|
                    0 <= c < j ==> #[trigger] from_row_major(
                        v@,
                        rows as int,
                        cols as int,
                    )[a as int][c]
                        == before[b as int][c],
                forall|c: int|
                    0 <= c < j ==> #[trigger] from_row_major(
                        v@,
                        rows as int,
                        cols as int,
                    )[b as int][c]
                        == before[a as int][c],
                forall|c: int|
                    j <= c < cols ==> #[trigger] from_row_major(
                        v@,
                        rows as int,
                        cols as int,
                    )[a as int][c] == before[a as int][c],
                forall|c: int|
                    j <= c < cols ==> #[trigger] from_row_major(
                        v@,
                        rows as int,
                        cols as int,
                    )[b as int][c] == before[b as int][c],
            decreases cols - j,
        {
            let ghost current = from_row_major(v@, rows as int, cols as int);
            let at_a = entry(v, rows, cols, a, j);
            let at_b = entry(v, rows, cols, b, j);
            set_entry(v, rows, cols, a, j, at_b);
            let ghost once = from_row_major(v@, rows as int, cols as int);
            set_entry(v, rows, cols, b, j, at_a);
            proof {
                let now = from_row_major(v@, rows as int, cols as int);
                assert(once == with_entry(current, a as int, j as int, at_b));
                assert(now == with_entry(once, b as int, j as int, at_a));
                assert(once[b as int] == current[b as int]);
                assert(now[a as int] == once[a as int]);
            }
            j += 1;
        }
        proof {
            let now = from_row_major(v@, rows as int, cols as int);
            let after = rows_swapped(before, a as int, b as int);
            assert(now[a as int] =~= after[a as int]);
            assert(now[b as int] =~= after[b as int]);
            assert(now =~= after);
        }
    } else {
        assert(from_row_major(v@, rows as int, cols as int) =~= rows_swapped(
            before,
            a as int,
            b as int,
        ));
    }
}

/// Whether `len` entries are all the entries of a `rows * cols` matrix.
pub fn holds_all(len: usize, rows: usize, cols: usize) -> (holds: bool)
    ensures
        holds == (len == rows * cols),
{
    let tall: u128 = rows as u128;
    let wide: u128 = cols as u128;
    assert(tall * wide <= u128::MAX) by (nonlinear_arith)
        requires
            0 <= tall <= 0xffff_ffff_ffff_ffff,
            0 <= wide <= 0xffff_ffff_ffff_ffff,
    ;
    tall * wide == len as u128
}

} // verus!
