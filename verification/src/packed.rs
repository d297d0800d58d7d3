//! Operations on the entries of a triangular matrix of which only the
//! triangle is stored, row by row, shared by the types with such storage.

use crate::algebra::{
    backward_solution, column, dot_range, forward_solution, from_row_major, transposed_sized,
    with_entry,
};
use crate::base_float::BaseFloat;
use crate::helpers::vec_zeros;
use crate::index2d::{
    full_offset, lemma_full_offset_in_range, lemma_lower_offset_in_range,
    lemma_lower_offset_injective, lemma_packed_len_monotonic, lemma_triangle_number,
    lemma_upper_offset_in_range, lemma_upper_offset_injective, lemma_upper_row_start,
    lemma_upper_rows_ordered, lower_offset, packed_len, upper_offset, Index2D,
};
use crate::matrix::triangle_mat::TriangleMatType;
use vstd::prelude::*;

verus! {

/// Whether `(i, j)` lies in the stored triangle.
pub open spec fn in_triangle(ty: TriangleMatType, i: int, j: int) -> bool {
    match ty {
        TriangleMatType::Upper => i <= j,
        TriangleMatType::Lower => j <= i,
    }
}

/// The offset of `(i, j)` of the stored triangle in the packed storage of an
/// `n * n` matrix.
pub open spec fn packed_offset(ty: TriangleMatType, i: int, j: int, n: int) -> int {
    match ty {
        TriangleMatType::Upper => upper_offset(i, j, n),
        TriangleMatType::Lower => lower_offset(i, j),
    }
}

/// The number of entries that row `i` of the stored triangle holds.
pub open spec fn packed_row_len(ty: TriangleMatType, i: int, n: int) -> int {
    match ty {
        TriangleMatType::Upper => n - i,
        TriangleMatType::Lower => i + 1,
    }
}

/// The column of the first stored entry of row `i`.
pub open spec fn packed_row_first(ty: TriangleMatType, i: int) -> int {
    match ty {
        TriangleMatType::Upper => i,
        TriangleMatType::Lower => 0,
    }
}

/// `len` is the number of entries of some triangle.
pub open spec fn is_packed_len(len: int) -> bool {
    exists|n: int| 0 <= n && #[trigger] packed_len(n) == len
}

/// Offsets of the stored triangle lie inside the packed storage.
pub proof fn lemma_packed_offset_in_range(ty: TriangleMatType, i: int, j: int, n: int)
    requires
        0 <= i < n,
        0 <= j < n,
        in_triangle(ty, i, j),
    ensures
        0 <= packed_offset(ty, i, j, n) < packed_len(n),
{
    match ty {
        TriangleMatType::Upper => lemma_upper_offset_in_range(i, j, n),
        TriangleMatType::Lower => lemma_lower_offset_in_range(i, j, n),
    }
}

/// Distinct positions of the stored triangle have distinct offsets.
pub proof fn lemma_packed_offset_injective(
    ty: TriangleMatType,
    i1: int,
    j1: int,
    i2: int,
    j2: int,
    n: int,
)
    requires
        0 <= i1 < n,
        0 <= j1 < n,
        0 <= i2 < n,
        0 <= j2 < n,
        in_triangle(ty, i1, j1),
        in_triangle(ty, i2, j2),
        packed_offset(ty, i1, j1, n) == packed_offset(ty, i2, j2, n),
    ensures
        i1 == i2,
        j1 == j2,
{
    match ty {
        TriangleMatType::Upper => lemma_upper_offset_injective(i1, j1, i2, j2, n),
        TriangleMatType::Lower => lemma_lower_offset_injective(i1, j1, i2, j2),
    }
}

/// The offset of a position in an earlier row lies before every offset of a
/// later row.
pub proof fn lemma_packed_offset_injective_order(
    ty: TriangleMatType,
    r: int,
    c: int,
    i: int,
    j: int,
    n: int,
)
    requires
        0 <= r < i < n,
        0 <= c < n,
        in_triangle(ty, r, c),
        packed_row_first(ty, i) <= j,
    ensures
        packed_offset(ty, r, c, n) < packed_offset(ty, i, j, n),
{
    match ty {
        TriangleMatType::Upper => {
            lemma_upper_row_start(r, n);
            lemma_upper_rows_ordered(r + 1, i, n);
        },
        TriangleMatType::Lower => {
            lemma_lower_offset_in_range(r, c, n);
            lemma_packed_len_monotonic(r + 1, i);
        },
    }
}

/// The first entry of row `i + 1` follows the last entry of row `i`.
pub proof fn lemma_next_row_start(ty: TriangleMatType, i: int, n: int)
    requires
        0 <= i < n,
    ensures
        packed_offset(ty, i, packed_row_first(ty, i) + packed_row_len(ty, i, n), n)
            == packed_offset(ty, i + 1, packed_row_first(ty, i + 1), n),
{
    match ty {
        TriangleMatType::Upper => {
            lemma_upper_row_start(i, n);
        },
        TriangleMatType::Lower => {
            lemma_triangle_number(i);
        },
    }
}

/// The row after the last one would start at the end of the storage.
pub proof fn lemma_storage_end(ty: TriangleMatType, n: int)
    requires
        0 < n,
    ensures
        packed_offset(ty, n, packed_row_first(ty, n), n) == packed_len(n),
{
    match ty {
        TriangleMatType::Upper => {
            lemma_upper_rows_ordered(n, n, n);
        },
        TriangleMatType::Lower => {},
    }
}

/// The `n * n` matrix whose triangle `ty` is stored in `v`: inside the
/// triangle the stored entries, outside of it zeros.
pub open spec fn from_packed<T: BaseFloat>(v: Seq<T>, ty: TriangleMatType, n: int) -> Seq<Seq<T>> {
    Seq::new(
        n as nat,
        |i: int|
            Seq::new(
                n as nat,
                |j: int|
                    if in_triangle(ty, i, j) {
                        v[packed_offset(ty, i, j, n)]
                    } else {
                        T::zero_value()
                    },
            ),
    )
}

/// The other triangle.
pub open spec fn opposite(ty: TriangleMatType) -> TriangleMatType {
    match ty {
        TriangleMatType::Upper => TriangleMatType::Lower,
        TriangleMatType::Lower => TriangleMatType::Upper,
    }
}

/// The columns `lo..hi` of row `i` that lie in the triangle.
pub open spec fn stored_columns(ty: TriangleMatType, i: int, n: int) -> (int, int) {
    match ty {
        TriangleMatType::Upper => (i, n),
        TriangleMatType::Lower => (0, i + 1),
    }
}

/// The product of two triangular matrices of the same kind, which is
/// triangular of that kind: inside the triangle, entry `(i, j)` is the sum of
/// `a[i][k] * b[k][j]` over the `k` between `i` and `j`, for which both
/// factors lie in the triangle.
pub open spec fn triangular_product<T: BaseFloat>(
    a: Seq<Seq<T>>,
    b: Seq<Seq<T>>,
    ty: TriangleMatType,
    n: int,
) -> Seq<Seq<T>> {
    Seq::new(
        n as nat,
        |i: int|
            Seq::new(
                n as nat,
                |j: int|
                    if in_triangle(ty, i, j) {
                        match ty {
                            TriangleMatType::Upper => dot_range(a[i], column(b, j), i, j + 1),
                            TriangleMatType::Lower => dot_range(a[i], column(b, j), j, i + 1),
                        }
                    } else {
                        T::zero_value()
                    },
            ),
    )
}

/// The triangular matrix `m` of size `n` extended to size `n + 1` by a new
/// diagonal: the entries of `m` move one place away from the diagonal, down
/// in a lower triangle and to the right in an upper one.
pub open spec fn extended_with_diagonal<T: BaseFloat>(
    m: Seq<Seq<T>>,
    diagonal: Seq<T>,
    ty: TriangleMatType,
    n: int,
) -> Seq<Seq<T>> {
    Seq::new(
        (n + 1) as nat,
        |i: int|
            Seq::new(
                (n + 1) as nat,
                |j: int|
                    if i == j {
                        diagonal[i]
                    } else if in_triangle(ty, i, j) {
                        match ty {
                            TriangleMatType::Upper => m[i][j - 1],
                            TriangleMatType::Lower => m[i - 1][j],
                        }
                    } else {
                        T::zero_value()
                    },
            ),
    )
}

/// The offset in the packed storage of the position `(i, j)` of the triangle.
pub fn packed_index(ty: TriangleMatType, n: usize, i: usize, j: usize) -> (offset: usize)
    requires
        i < n,
        j < n,
        in_triangle(ty, i as int, j as int),
        packed_len(n as int) <= usize::MAX,
    ensures
        offset == packed_offset(ty, i as int, j as int, n as int),
        offset < packed_len(n as int),
{
    proof {
        lemma_packed_offset_in_range(ty, i as int, j as int, n as int);
    }
    let position = Index2D { row: i, col: j };
    match ty {
        TriangleMatType::Upper => position.ut_to_1d(n),
        TriangleMatType::Lower => position.lt_to_1d(),
    }
}

/// Whether `(i, j)` lies in the triangle `ty`.
pub fn is_stored(ty: TriangleMatType, i: usize, j: usize) -> (stored: bool)
    ensures
        stored == in_triangle(ty, i as int, j as int),
{
    match ty {
        TriangleMatType::Upper => i <= j,
        TriangleMatType::Lower => j <= i,
    }
}

/// The entry at `(i, j)` of the triangular matrix stored in `v`: the stored
/// entry inside the triangle, zero outside of it.
pub fn packed_entry<T: BaseFloat>(
    v: &Vec<T>,
    ty: TriangleMatType,
    n: usize,
    i: usize,
    j: usize,
) -> (value: T)
    requires
        v.len() == packed_len(n as int),
        i < n,
        j < n,
    ensures
        value == from_packed(v@, ty, n as int)[i as int][j as int],
{
    if is_stored(ty, i, j) {
        let offset = packed_index(ty, n, i, j);
        v[offset]
    } else {
        T::zero()
    }
}

/// Replaces the entry at `(i, j)` of the triangle stored in `v`.
pub fn set_packed_entry<T: BaseFloat>(
    v: &mut Vec<T>,
    ty: TriangleMatType,
    n: usize,
    i: usize,
    j: usize,
    value: T,
)
    requires
        old(v).len() == packed_len(n as int),
        i < n,
        j < n,
        in_triangle(ty, i as int, j as int),
    ensures
        final(v).len() == old(v).len(),
        final(v)@ == old(v)@.update(packed_offset(ty, i as int, j as int, n as int), value),
        from_packed(final(v)@, ty, n as int) == with_entry(
            from_packed(old(v)@, ty, n as int),
            i as int,
            j as int,
            value,
        ),
{
    let offset = packed_index(ty, n, i, j);
    let ghost before = v@;
    v.set(offset, value);
    proof {
        let now = from_packed(v@, ty, n as int);
        let expected = with_entry(from_packed(before, ty, n as int), i as int, j as int, value);
        assert forall|r: int| 0 <= r < n implies #[trigger] now[r] =~= expected[r] by {
            assert forall|c: int| 0 <= c < n implies now[r][c] == expected[r][c] by {
                if in_triangle(ty, r, c) {
                    lemma_packed_offset_in_range(ty, r, c, n as int);
                    if packed_offset(ty, r, c, n as int) == offset {
                        lemma_packed_offset_injective(ty, r, c, i as int, j as int, n as int);
                    }
                }
            }
        }
        assert(now =~= expected);
    }
}

/// Solves `m * x = b` for the triangular matrix `m` stored in `v`: by
/// forward substitution for a lower triangle, by backward substitution for an
/// upper one.
pub fn packed_solve<T: BaseFloat>(
    v: &Vec<T>,
    ty: TriangleMatType,
    n: usize,
    b: &Vec<T>,
) -> (x: Vec<T>)
    requires
        v.len() == packed_len(n as int),
        b.len() == n,
    ensures
        x.len() == n,
        x@ == match ty {
            TriangleMatType::Lower => forward_solution(
                from_packed(v@, ty, n as int),
                b@,
                b.len() as int,
            ),
            TriangleMatType::Upper => backward_solution(from_packed(v@, ty, n as int), b@, 0),
        },
{
    let ghost m = from_packed(v@, ty, n as int);
    match ty {
        TriangleMatType::Lower => {
            let mut x: Vec<T> = Vec::new();
            let mut i: usize = 0;
            while i < n
                invariant
                    0 <= i <= n,
                    v.len() == packed_len(n as int),
                    n == b.len(),
                    m == from_packed(v@, ty, n as int),
                    x@ == forward_solution(m, b@, i as int),
                    x.len() == i,
                decreases n - i,
            {
                let mut sum = T::zero();
                let mut j: usize = 0;
                while j < i
                    invariant
                        0 <= j <= i,
                        0 <= i < n,
                        v.len() == packed_len(n as int),
                        m == from_packed(v@, ty, n as int),
                        x.len() == i,
                        sum == dot_range(m[i as int], x@, 0, j as int),
                    decreases i - j,
                {
                    sum = sum.add(packed_entry(v, ty, n, i, j).mul(x[j]));
                    j += 1;
                }
                x.push(b[i].sub(sum).div(packed_entry(v, ty, n, i, i)));
                i += 1;
            }
            x
        },
        TriangleMatType::Upper => {
            let mut x: Vec<T> = vec_zeros(n);
            let mut i: usize = n;
            while i > 0
                invariant
                    0 <= i <= n,
                    v.len() == packed_len(n as int),
                    n == b.len(),
                    m == from_packed(v@, ty, n as int),
                    x.len() == n,
                    x@ == backward_solution(m, b@, i as int),
                decreases i,
            {
                i -= 1;
                let mut sum = T::zero();
                let mut j: usize = i + 1;
                while j < n
                    invariant
                        i + 1 <= j <= n,
                        0 <= i < n,
                        v.len() == packed_len(n as int),
                        m == from_packed(v@, ty, n as int),
                        x.len() == n,
                        sum == dot_range(m[i as int], x@, i + 1, j as int),
                    decreases n - j,
                {
                    sum = sum.add(packed_entry(v, ty, n, i, j).mul(x[j]));
                    j += 1;
                }
                x.set(i, b[i].sub(sum).div(packed_entry(v, ty, n, i, i)));
            }
            x
        },
    }
}

/// The columns `lo..hi` of row `i` that lie in the triangle `ty`.
pub fn stored_range(ty: TriangleMatType, i: usize, n: usize) -> (range: (usize, usize))
    requires
        i < n,
    ensures
        range.0 == stored_columns(ty, i as int, n as int).0,
        range.1 == stored_columns(ty, i as int, n as int).1,
        range.0 <= range.1 <= n,
{
    match ty {
        TriangleMatType::Upper => (i, n),
        TriangleMatType::Lower => (0, i + 1),
    }
}

/// The other triangle.
pub fn other_triangle(ty: TriangleMatType) -> (other: TriangleMatType)
    ensures
        other == opposite(ty),
{
    match ty {
        TriangleMatType::Upper => TriangleMatType::Lower,
        TriangleMatType::Lower => TriangleMatType::Upper,
    }
}

/// The triangle of the transpose of the triangular matrix stored in `v`. The
/// transpose has the other kind.
pub fn packed_transposed<T: BaseFloat>(v: &Vec<T>, ty: TriangleMatType, n: usize) -> (t: Vec<T>)
    requires
        v.len() == packed_len(n as int),
    ensures
        t.len() == v.len(),
        from_packed(t@, opposite(ty), n as int) == transposed_sized(
            from_packed(v@, ty, n as int),
            n as int,
            n as int,
        ),
{
    let ghost m = from_packed(v@, ty, n as int);
    let other = other_triangle(ty);
    let mut t: Vec<T> = vec_zeros(v.len());
    let mut i: usize = 0;
    while i < n
        invariant
            0 <= i <= n,
            v.len() == packed_len(n as int),
            t.len() == v.len(),
            other == opposite(ty),
            m == from_packed(v@, ty, n as int),
            forall|r: int, c: int|
                0 <= r < i && 0 <= c < n && in_triangle(ty, r, c) ==> #[trigger] from_packed(
                    t@,
                    other,
                    n as int,
                )[c][r] == m[r][c],
        decreases n - i,
    {
        let (lo, hi) = stored_range(ty, i, n);
        let mut j: usize = lo;
        while j < hi
            invariant
                lo <= j <= hi <= n,
                0 <= i < n,
                lo == stored_columns(ty, i as int, n as int).0,
                hi == stored_columns(ty, i as int, n as int).1,
                v.len() == packed_len(n as int),
                t.len() == v.len(),
                other == opposite(ty),
                m == from_packed(v@, ty, n as int),
                forall|r: int, c: int|
                    0 <= r < i && 0 <= c < n && in_triangle(ty, r, c) ==> #[trigger] from_packed(
                        t@,
                        other,
                        n as int,
                    )[c][r] == m[r][c],
                forall|c: int|
                    lo <= c < j ==> #[trigger] from_packed(t@, other, n as int)[c][i as int]
                        == m[i as int][c],
            decreases hi - j,
        {
            let value = packed_entry(v, ty, n, i, j);
            set_packed_entry(&mut t, other, n, j, i, value);
            j += 1;
        }
        i += 1;
    }
    proof {
        let now = from_packed(t@, other, n as int);
        let expected = transposed_sized(m, n as int, n as int);
        assert forall|c: int| 0 <= c < n implies #[trigger] now[c] =~= expected[c] by {
            assert forall|r: int| 0 <= r < n implies now[c][r] == expected[c][r] by {
                if in_triangle(ty, r, c) {
                    assert(from_packed(t@, other, n as int)[c][r] == m[r][c]);
                }
            }
        }
        assert(now =~= expected);
    }
    t
}

/// The triangle of the product of the two triangular matrices of kind `ty`
/// stored in `a` and `b`.
pub fn packed_product<T: BaseFloat>(
    a: &Vec<T>,
    b: &Vec<T>,
    ty: TriangleMatType,
    n: usize,
) -> (product: Vec<T>)
    requires
        a.len() == packed_len(n as int),
        b.len() == packed_len(n as int),
    ensures
        product.len() == a.len(),
        from_packed(product@, ty, n as int) == triangular_product(
            from_packed(a@, ty, n as int),
            from_packed(b@, ty, n as int),
            ty,
            n as int,
        ),
{
    let ghost left = from_packed(a@, ty, n as int);
    let ghost right = from_packed(b@, ty, n as int);
    let ghost expected = triangular_product(left, right, ty, n as int);
    let mut product: Vec<T> = vec_zeros(a.len());
    let mut i: usize = 0;
    while i < n
        invariant
            0 <= i <= n,
            a.len() == packed_len(n as int),
            b.len() == packed_len(n as int),
            product.len() == a.len(),
            left == from_packed(a@, ty, n as int),
            right == from_packed(b@, ty, n as int),
            expected == triangular_product(left, right, ty, n as int),
            forall|r: int, c: int|
                0 <= r < i && 0 <= c < n && in_triangle(ty, r, c) ==> #[trigger] from_packed(
                    product@,
                    ty,
                    n as int,
                )[r][c] == expected[r][c],
        decreases n - i,
    {
        let (lo, hi) = stored_range(ty, i, n);
        let mut j: usize = lo;
        while j < hi
            invariant
                lo <= j <= hi <= n,
                0 <= i < n,
                lo == stored_columns(ty, i as int, n as int).0,
                hi == stored_columns(ty, i as int, n as int).1,
                a.len() == packed_len(n as int),
                b.len() == packed_len(n as int),
                product.len() == a.len(),
                left == from_packed(a@, ty, n as int),
                right == from_packed(b@, ty, n as int),
                expected == triangular_product(left, right, ty, n as int),
                forall|r: int, c: int|
                    0 <= r < i && 0 <= c < n && in_triangle(ty, r, c) ==> #[trigger] from_packed(
                        product@,
                        ty,
                        n as int,
                    )[r][c] == expected[r][c],
                forall|c: int|
                    lo <= c < j ==> #[trigger] from_packed(product@, ty, n as int)[i as int][c]
                        == expected[i as int][c],
            decreases hi - j,
        {
            let (first, end): (usize, usize) = match ty {
                TriangleMatType::Upper => (i, j + 1),
                TriangleMatType::Lower => (j, i + 1),
            };
            let mut elem = T::zero();
            let mut k: usize = first;
            while k < end
                invariant
                    first <= k <= end <= n,
                    0 <= i < n,
                    0 <= j < n,
                    a.len() == packed_len(n as int),
                    b.len() == packed_len(n as int),
                    left == from_packed(a@, ty, n as int),
                    right == from_packed(b@, ty, n as int),
                    elem == dot_range(
                        left[i as int],
                        column(right, j as int),
                        first as int,
                        k as int,
                    ),
                decreases end - k,
            {
                elem = elem.add(packed_entry(a, ty, n, i, k).mul(packed_entry(b, ty, n, k, j)));
                k += 1;
            }
            set_packed_entry(&mut product, ty, n, i, j, elem);
            j += 1;
        }
        i += 1;
    }
    proof {
        let now = from_packed(product@, ty, n as int);
        assert forall|r: int| 0 <= r < n implies #[trigger] now[r] =~= expected[r] by {
            assert forall|c: int| 0 <= c < n implies now[r][c] == expected[r][c] by {
                if in_triangle(ty, r, c) {
                    assert(from_packed(product@, ty, n as int)[r][c] == expected[r][c]);
                }
            }
        }
        assert(now =~= expected);
    }
    product
}

/// The triangle of the matrix of size `n + 1` that extends the triangular
/// matrix of size `n` stored in `v` by the new diagonal `diagonal`.
pub fn packed_extended<T: BaseFloat>(
    v: &Vec<T>,
    ty: TriangleMatType,
    n: usize,
    diagonal: &Vec<T>,
) -> (extended: Vec<T>)
    requires
        v.len() == packed_len(n as int),
        diagonal.len() == n + 1,
        packed_len(n + 1) <= usize::MAX,
    ensures
        extended.len() == packed_len(n + 1),
        from_packed(extended@, ty, n + 1) == extended_with_diagonal(
            from_packed(v@, ty, n as int),
            diagonal@,
            ty,
            n as int,
        ),
{
    let ghost m = from_packed(v@, ty, n as int);
    let ghost expected = extended_with_diagonal(m, diagonal@, ty, n as int);
    proof {
        lemma_triangle_number(n as int);
    }
    let size: usize = n + 1;
    let mut extended: Vec<T> = vec_zeros(v.len() + size);
    let mut i: usize = 0;
    while i < size
        invariant
            0 <= i <= size,
            size == n + 1,
            v.len() == packed_len(n as int),
            diagonal.len() == size,
            extended.len() == packed_len(size as int),
            m == from_packed(v@, ty, n as int),
            expected == extended_with_diagonal(m, diagonal@, ty, n as int),
            forall|r: int, c: int|
                0 <= r < i && 0 <= c < size && in_triangle(ty, r, c) ==> #[trigger] from_packed(
                    extended@,
                    ty,
                    size as int,
                )[r][c] == expected[r][c],
        decreases size - i,
    {
        let (lo, hi) = stored_range(ty, i, size);
        let mut j: usize = lo;
        while j < hi
            invariant
                lo <= j <= hi <= size,
                0 <= i < size,
                size == n + 1,
                lo == stored_columns(ty, i as int, size as int).0,
                hi == stored_columns(ty, i as int, size as int).1,
                v.len() == packed_len(n as int),
                diagonal.len() == size,
                extended.len() == packed_len(size as int),
                m == from_packed(v@, ty, n as int),
                expected == extended_with_diagonal(m, diagonal@, ty, n as int),
                forall|r: int, c: int|
                    0 <= r < i && 0 <= c < size && in_triangle(ty, r, c) ==> #[trigger] from_packed(
                        extended@,
                        ty,
                        size as int,
                    )[r][c] == expected[r][c],
                forall|c: int|
                    lo <= c < j ==> #[trigger] from_packed(extended@, ty, size as int)[i as int][c]
                        == expected[i as int][c],
            decreases hi - j,
        {
            let value = if i == j {
                diagonal[i]
            } else {
                match ty {
                    TriangleMatType::Upper => packed_entry(v, ty, n, i, j - 1),
                    TriangleMatType::Lower => packed_entry(v, ty, n, i - 1, j),
                }
            };
            set_packed_entry(&mut extended, ty, size, i, j, value);
            j += 1;
        }
        i += 1;
    }
    proof {
        let now = from_packed(extended@, ty, size as int);
        assert forall|r: int| 0 <= r < size implies #[trigger] now[r] =~= expected[r] by {
            assert forall|c: int| 0 <= c < size implies now[r][c] == expected[r][c] by {
                if in_triangle(ty, r, c) {
                    assert(from_packed(extended@, ty, size as int)[r][c] == expected[r][c]);
                }
            }
        }
        assert(now =~= expected);
    }
    extended
}

/// All `n * n` entries of the triangular matrix stored in `v`, zeros
/// included, row by row.
pub fn unpacked<T: BaseFloat>(v: &Vec<T>, ty: TriangleMatType, n: usize) -> (all: Vec<T>)
    requires
        v.len() == packed_len(n as int),
    ensures
        all.len() == n * n,
        from_row_major(all@, n as int, n as int) == from_packed(v@, ty, n as int),
{
    let ghost m = from_packed(v@, ty, n as int);
    let mut all: Vec<T> = Vec::new();
    let mut i: usize = 0;
    while i < n
        invariant
            0 <= i <= n,
            v.len() == packed_len(n as int),
            m == from_packed(v@, ty, n as int),
            all.len() == i * n,
            forall|r: int, c: int|
                0 <= r < i && 0 <= c < n ==> all@[#[trigger] full_offset(r, c, n as int)]
                    == m[r][c],
        decreases n - i,
    {
        let mut j: usize = 0;
        while j < n
            invariant
                0 <= j <= n,
                0 <= i < n,
                v.len() == packed_len(n as int),
                m == from_packed(v@, ty, n as int),
                all.len() == i * n + j,
                forall|r: int, c: int|
                    0 <= r < i && 0 <= c < n ==> all@[#[trigger] full_offset(r, c, n as int)]
                        == m[r][c],
                forall|c: int|
                    0 <= c < j ==> all@[#[trigger] full_offset(i as int, c, n as int)]
                        == m[i as int][c],
            decreases n - j,
        {
            proof {
                assert forall|r: int, c: int| 0 <= r < i && 0 <= c < n implies
                    #[trigger] full_offset(r, c, n as int) < i * n by {
                    lemma_full_offset_in_range(r, c, i as int, n as int);
                }
            }
            all.push(packed_entry(v, ty, n, i, j));
            j += 1;
        }
        proof {
            assert((i + 1) * n == i * n + n) by (nonlinear_arith);
        }
        i += 1;
    }
    proof {
        let now = from_row_major(all@, n as int, n as int);
        assert forall|r: int| 0 <= r < n implies #[trigger] now[r] =~= m[r] by {
            assert forall|c: int| 0 <= c < n implies now[r][c] == m[r][c] by {
                assert(now[r][c] == all@[full_offset(r, c, n as int)]);
            }
        }
        assert(now =~= m);
    }
    all
}

/// Whether `len` entries are exactly the triangle of a matrix of size `n`.
pub fn holds_triangle(len: usize, n: usize) -> (holds: bool)
    ensures
        holds == (len == packed_len(n as int)),
{
    let wide: u128 = n as u128;
    assert(wide * (wide + 1) <= u128::MAX) by (nonlinear_arith)
        requires
            0 <= wide <= 0xffff_ffff_ffff_ffff,
    ;
    proof {
        lemma_triangle_number(n as int);
    }
    wide * (wide + 1) / 2 == len as u128
}

} // verus!
