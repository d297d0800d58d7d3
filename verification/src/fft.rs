//! The discrete Fourier transform, by its definition and by recursive
//! bisection.
//!
//! The transforms take the powers of the principal root of unity of the
//! order of the data as an argument, `roots[p]` for the power `p`, and the
//! inverse transforms the factor `1 / n` as well: what cosines, sines and the
//! conversion of a length into a scalar give is not theirs to compute.

use crate::base_float::BaseFloat;
use crate::complex::{
    complex_difference, complex_product, complex_sum, complex_zero, conjugated, Complex,
};
use vstd::arithmetic::power2::is_pow2;
use vstd::prelude::*;

verus! {

/// Clearing the lowest set bit of a number greater than one leaves nothing
/// exactly if the number is even and the same holds of its half.
proof fn lemma_lowest_bit_cleared(x: usize)
    requires
        x >= 2,
    ensures
        (x & ((x - 1) as usize) == 0) == (x % 2 == 0 && (x / 2) & ((x / 2 - 1) as usize) == 0),
{
    assert((x & ((x - 1) as usize) == 0) == (x % 2 == 0 && (x / 2) & ((x / 2 - 1) as usize) == 0))
        by (bit_vector)
        requires
            x >= 2,
    ;
}

/// A positive number is a power of two exactly if clearing its lowest set
/// bit leaves nothing.
proof fn lemma_single_bit_is_power_of_2(x: usize)
    requires
        x >= 1,
    ensures
        (x & ((x - 1) as usize) == 0) == is_pow2(x as int),
    decreases x,
{
    reveal(is_pow2);
    if x >= 2 {
        lemma_lowest_bit_cleared(x);
        lemma_single_bit_is_power_of_2(x / 2);
    } else {
        assert(x & ((x - 1) as usize) == 0) by (bit_vector)
            requires
                x == 1,
        ;
    }
}

/// Whether `x` is one of the powers of two `2, 4, 8, ...`, the lengths that
/// the transform by bisection can halve.
pub fn is_power_of_2(x: usize) -> (power: bool)
    ensures
        power == (x > 1 && is_pow2(x as int)),
{
    if x > 1 {
        proof {
            lemma_single_bit_is_power_of_2(x);
        }
        x & (x - 1) == 0
    } else {
        false
    }
}

/// The conjugates of `roots`.
pub open spec fn conjugates<T: BaseFloat>(roots: Seq<Complex<T>>) -> Seq<Complex<T>> {
    Seq::new(roots.len(), |p: int| conjugated(roots[p]))
}

/// Each entry of `data` times `scale`.
pub open spec fn scaled<T: BaseFloat>(data: Seq<Complex<T>>, scale: Complex<T>) -> Seq<Complex<T>> {
    Seq::new(data.len(), |k: int| complex_product(data[k], scale))
}

/// `data[0] * w^(0*k) + ... + data[upto-1] * w^((upto-1)*k)`, added from zero
/// in this order, where `w^p` is `roots[p mod n]`.
pub open spec fn frequency_sum<T: BaseFloat>(
    data: Seq<Complex<T>>,
    roots: Seq<Complex<T>>,
    k: int,
    upto: int,
) -> Complex<T>
    decreases upto,
{
    if upto <= 0 {
        complex_zero()
    } else {
        complex_sum(
            frequency_sum(data, roots, k, upto - 1),
            complex_product(data[upto - 1], roots[((upto - 1) * k) % (data.len() as int)]),
        )
    }
}

/// The transform of `data` by its definition: entry `k` is the sum of
/// `data[j] * w^(j*k)` over all `j`.
pub open spec fn transform_by_definition<T: BaseFloat>(
    data: Seq<Complex<T>>,
    roots: Seq<Complex<T>>,
) -> Seq<Complex<T>> {
    Seq::new(data.len(), |k: int| frequency_sum(data, roots, k, data.len() as int))
}

/// Every second entry of `roots`: the powers of the principal root of unity
/// of half the order.
pub open spec fn every_second<T>(roots: Seq<Complex<T>>) -> Seq<Complex<T>> {
    Seq::new(roots.len() / 2, |p: int| roots[2 * p])
}

/// The sums `data[i] + data[i + n/2]` of the two halves of `data`.
pub open spec fn folded_sums<T: BaseFloat>(data: Seq<Complex<T>>) -> Seq<Complex<T>> {
    Seq::new(data.len() / 2, |i: int| complex_sum(data[i], data[i + data.len() / 2]))
}

/// The differences `(data[i] - data[i + n/2]) * w^i` of the two halves of
/// `data`, each turned by its power of the root of unity.
pub open spec fn folded_differences<T: BaseFloat>(
    data: Seq<Complex<T>>,
    roots: Seq<Complex<T>>,
) -> Seq<Complex<T>> {
    Seq::new(
        data.len() / 2,
        |i: int| complex_product(complex_difference(data[i], data[i + data.len() / 2]), roots[i]),
    )
}

/// `even` and `odd` in turn: `even[0], odd[0], even[1], odd[1], ...`.
pub open spec fn interleaved<T>(even: Seq<T>, odd: Seq<T>) -> Seq<T> {
    Seq::new(2 * even.len(), |k: int| if k % 2 == 0 { even[k / 2] } else { odd[k / 2] })
}

/// The transform of `data` by recursive bisection: the entries of even index
/// are the transform of the sums of the two halves of the data, those of odd
/// index the transform of their turned differences.
pub open spec fn transform_by_bisection<T: BaseFloat>(
    data: Seq<Complex<T>>,
    roots: Seq<Complex<T>>,
) -> Seq<Complex<T>>
    decreases data.len(),
{
    if data.len() <= 1 {
        data
    } else {
        interleaved(
            transform_by_bisection(folded_sums(data), every_second(roots)),
            transform_by_bisection(folded_differences(data, roots), every_second(roots)),
        )
    }
}

/// A discrete Fourier transform and its inverse.
pub trait DFT<T: BaseFloat> {
    /// The transform is defined for data of the length `len`.
    spec fn transforms(len: nat) -> bool;

    /// The transform of `data` with the powers `roots` of the root of unity.
    spec fn transformed(data: Seq<Complex<T>>, roots: Seq<Complex<T>>) -> Seq<Complex<T>>;

    /// The inverse transform of `data` with the powers `roots` of the root
    /// of unity of the forward transform and the factor `scale`.
    spec fn inversely_transformed(
        data: Seq<Complex<T>>,
        roots: Seq<Complex<T>>,
        scale: Complex<T>,
    ) -> Seq<Complex<T>>;

    /// Transforms `data`, where `roots[p]` is the power `p` of the principal
    /// root of unity of the order of the data.
    fn fourier_transform(data: &Vec<Complex<T>>, roots: &Vec<Complex<T>>) -> (out: Vec<Complex<T>>)
        requires
            Self::transforms(data@.len()),
            roots.len() == data.len(),
        ensures
            out@ == Self::transformed(data@, roots@),
    ;

    /// Transforms `data` back, where `roots[p]` is the power `p` of the
    /// principal root of unity of the forward transform and `scale` is one
    /// over the length of the data.
    fn inverse_fourier_transform(
        data: &Vec<Complex<T>>,
        roots: &Vec<Complex<T>>,
        scale: Complex<T>,
    ) -> (out: Vec<Complex<T>>)
        requires
            Self::transforms(data@.len()),
            roots.len() == data.len(),
        ensures
            out@ == Self::inversely_transformed(data@, roots@, scale),
    ;
}

/// The index `(j * k) mod n` of the power `j * k` of a root of unity of
/// order `n`.
fn power_index(j: usize, k: usize, n: usize) -> (index: usize)
    requires
        n > 0,
    ensures
        index == (j * k) % (n as int),
        index < n,
{
    let wide_j: u128 = j as u128;
    let wide_k: u128 = k as u128;
    assert(wide_j * wide_k <= u128::MAX) by (nonlinear_arith)
        requires
            0 <= wide_j <= 0xffff_ffff_ffff_ffff,
            0 <= wide_k <= 0xffff_ffff_ffff_ffff,
    ;
    ((wide_j * wide_k) % (n as u128)) as usize
}

/// The conjugates of `roots`.
fn conjugate_all<T: BaseFloat>(roots: &Vec<Complex<T>>) -> (out: Vec<Complex<T>>)
    ensures
        out@ == conjugates(roots@),
{
    let mut out: Vec<Complex<T>> = Vec::new();
    let mut p: usize = 0;
    while p < roots.len()
        invariant
            0 <= p <= roots.len(),
            out.len() == p,
            forall|q: int| 0 <= q < p ==> #[trigger] out@[q] == conjugated(roots@[q]),
        decreases roots.len() - p,
    {
        out.push(roots[p].conjugate());
        p += 1;
    }
    assert(out@ =~= conjugates(roots@));
    out
}

/// Each entry of `data` times `scale`.
fn scale_all<T: BaseFloat>(data: &Vec<Complex<T>>, scale: Complex<T>) -> (out: Vec<Complex<T>>)
    ensures
        out@ == scaled(data@, scale),
{
    let mut out: Vec<Complex<T>> = Vec::new();
    let mut k: usize = 0;
    while k < data.len()
        invariant
            0 <= k <= data.len(),
            out.len() == k,
            forall|q: int| 0 <= q < k ==> #[trigger] out@[q] == complex_product(data@[q], scale),
        decreases data.len() - k,
    {
        out.push(data[k].mul(scale));
        k += 1;
    }
    assert(out@ =~= scaled(data@, scale));
    out
}

/// The transform by its definition, in quadratic time.
pub struct NaiveDFT;

/// The transform of `data` by its definition.
fn transform_naively<T: BaseFloat>(data: &Vec<Complex<T>>, roots: &Vec<Complex<T>>) -> (out: Vec<
    Complex<T>,
>)
    requires
        roots.len() == data.len(),
    ensures
        out@ == transform_by_definition(data@, roots@),
{
    let n = data.len();
    let mut out: Vec<Complex<T>> = Vec::new();
    let mut k: usize = 0;
    while k < n
        invariant
            0 <= k <= n,
            n == data.len(),
            n == roots.len(),
            out.len() == k,
            forall|q: int|
                0 <= q < k ==> #[trigger] out@[q] == frequency_sum(data@, roots@, q, n as int),
        decreases n - k,
    {
        let mut sum = Complex::zero();
        let mut j: usize = 0;
        while j < n
            invariant
                0 <= j <= n,
                0 <= k < n,
                n == data.len(),
                n == roots.len(),
                sum == frequency_sum(data@, roots@, k as int, j as int),
            decreases n - j,
        {
            sum = sum.add(data[j].mul(roots[power_index(j, k, n)]));
            j += 1;
        }
        out.push(sum);
        k += 1;
    }
    assert(out@ =~= transform_by_definition(data@, roots@));
    out
}

impl<T: BaseFloat> DFT<T> for NaiveDFT {
    /// Data of every length can be transformed.
    open spec fn transforms(len: nat) -> bool {
        true
    }

    open spec fn transformed(data: Seq<Complex<T>>, roots: Seq<Complex<T>>) -> Seq<Complex<T>> {
        transform_by_definition(data, roots)
    }

    /// The transform with the conjugate roots, times the factor.
    open spec fn inversely_transformed(
        data: Seq<Complex<T>>,
        roots: Seq<Complex<T>>,
        scale: Complex<T>,
    ) -> Seq<Complex<T>> {
        scaled(transform_by_definition(data, conjugates(roots)), scale)
    }

    fn fourier_transform(data: &Vec<Complex<T>>, roots: &Vec<Complex<T>>) -> (out: Vec<Complex<T>>) {
        transform_naively(data, roots)
    }

    fn inverse_fourier_transform(
        data: &Vec<Complex<T>>,
        roots: &Vec<Complex<T>>,
        scale: Complex<T>,
    ) -> (out: Vec<Complex<T>>) {
        let conjugate_roots = conjugate_all(roots);
        let sums = transform_naively(data, &conjugate_roots);
        scale_all(&sums, scale)
    }
}

/// The transform of data whose length is a power of two, by recursive
/// bisection, in time `n log n`.
pub struct RecursiveBisectionFFT;

/// The transform of `data` by recursive bisection.
fn transform_halves<T: BaseFloat>(data: &Vec<Complex<T>>, roots: &Vec<Complex<T>>) -> (out: Vec<
    Complex<T>,
>)
    requires
        is_pow2(data.len() as int),
        roots.len() == data.len(),
    ensures
        out@ == transform_by_bisection(data@, roots@),
        out.len() == data.len(),
    decreases data.len(),
{
    let n = data.len();
    proof {
        reveal(is_pow2);
    }
    if n == 1 {
        let mut out: Vec<Complex<T>> = Vec::new();
        out.push(data[0]);
        assert(out@ =~= data@);
        out
    } else {
        let half = n / 2;
        let mut sums: Vec<Complex<T>> = Vec::new();
        let mut differences: Vec<Complex<T>> = Vec::new();
        let mut half_roots: Vec<Complex<T>> = Vec::new();
        let mut i: usize = 0;
        while i < half
            invariant
                0 <= i <= half,
                n == data.len(),
                n == roots.len(),
                n == 2 * half,
                sums.len() == i,
                differences.len() == i,
                half_roots.len() == i,
                forall|q: int| 0 <= q < i ==> #[trigger] sums@[q] == folded_sums(data@)[q],
                forall|q: int|
                    0 <= q < i ==> #[trigger] differences@[q] == folded_differences(
                        data@,
                        roots@,
                    )[q],
                forall|q: int| 0 <= q < i ==> #[trigger] half_roots@[q] == every_second(roots@)[q],
            decreases half - i,
        {
            sums.push(data[i].add(data[i + half]));
            differences.push(data[i].sub(data[i + half]).mul(roots[i]));
            half_roots.push(roots[2 * i]);
            i += 1;
        }
        proof {
            assert(sums@ =~= folded_sums(data@));
            assert(differences@ =~= folded_differences(data@, roots@));
            assert(half_roots@ =~= every_second(roots@));
        }
        let even = transform_halves(&sums, &half_roots);
        let odd = transform_halves(&differences, &half_roots);
        let mut out: Vec<Complex<T>> = Vec::new();
        let mut i: usize = 0;
        while i < half
            invariant
                0 <= i <= half,
                even.len() == half,
                odd.len() == half,
                out.len() == 2 * i,
                forall|k: int| 0 <= k < 2 * i ==> #[trigger] out@[k] == interleaved(even@, odd@)[k],
            decreases half - i,
        {
            out.push(even[i]);
            out.push(odd[i]);
            i += 1;
        }
        assert(out@ =~= interleaved(even@, odd@));
        out
    }
}

impl<T: BaseFloat> DFT<T> for RecursiveBisectionFFT {
    /// The length is a power of two, one included.
    open spec fn transforms(len: nat) -> bool {
        is_pow2(len as int)
    }

    open spec fn transformed(data: Seq<Complex<T>>, roots: Seq<Complex<T>>) -> Seq<Complex<T>> {
        transform_by_bisection(data, roots)
    }

    /// The transform with the conjugate roots, times the factor unless
    /// there is but one entry.
    open spec fn inversely_transformed(
        data: Seq<Complex<T>>,
        roots: Seq<Complex<T>>,
        scale: Complex<T>,
    ) -> Seq<Complex<T>> {
        let turned = transform_by_bisection(data, conjugates(roots));
        if data.len() == 1 {
            turned
        } else {
            scaled(turned, scale)
        }
    }

    fn fourier_transform(data: &Vec<Complex<T>>, roots: &Vec<Complex<T>>) -> (out: Vec<Complex<T>>) {
        transform_halves(data, roots)
    }

    fn inverse_fourier_transform(
        data: &Vec<Complex<T>>,
        roots: &Vec<Complex<T>>,
        scale: Complex<T>,
    ) -> (out: Vec<Complex<T>>) {
        let conjugate_roots = conjugate_all(roots);
        let turned = transform_halves(data, &conjugate_roots);
        if data.len() == 1 {
            turned
        } else {
            scale_all(&turned, scale)
        }
    }
}

} // verus!
