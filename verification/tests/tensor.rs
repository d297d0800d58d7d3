use approx::AbsDiffEq;
use core_float::CoreFloat;
use numerical::base_float::BaseFloat;
use numerical::index2d::Index2D;
use numerical::matrix::render::render_spaced;
use numerical::tensor::matrix::base_traits::{MatrixAddSubSelf, MatrixMulSelf, Square};
use numerical::tensor::matrix::full_inner_vec::MatrixFullVec;
use numerical::tensor::matrix::lt_inner_vec::MatrixLTVec;
use numerical::tensor::matrix::lu_factorization::LUFactorization;
use numerical::tensor::matrix::permutation::MatrixPermutationVec;
use numerical::tensor::matrix::square_inner_vec::MatrixSquareFullVec;
use numerical::tensor::matrix::ut_inner_vec::MatrixUTVec;
use numerical::tensor::vector::{Vector, VectorInnerVec};

trait Native: CoreFloat {
    fn native_abs(self) -> Self;
    fn native_signum(self) -> Self;
}

impl Native for f32 {
    fn native_abs(self) -> Self {
        f32::abs(self)
    }

    fn native_signum(self) -> Self {
        f32::signum(self)
    }
}

impl Native for f64 {
    fn native_abs(self) -> Self {
        f64::abs(self)
    }

    fn native_signum(self) -> Self {
        f64::signum(self)
    }
}

#[derive(Clone, Copy, Debug, PartialEq, PartialOrd)]
struct Real<F>(F);

impl<F: Native> BaseFloat for Real<F> {
    fn zero_value() -> Self {
        Real(F::ZERO)
    }

    fn one_value() -> Self {
        Real(F::ONE)
    }

    fn plus(self, rhs: Self) -> Self {
        Real(self.0 + rhs.0)
    }

    fn minus(self, rhs: Self) -> Self {
        Real(self.0 - rhs.0)
    }

    fn times(self, rhs: Self) -> Self {
        Real(self.0 * rhs.0)
    }

    fn over(self, rhs: Self) -> Self {
        Real(self.0 / rhs.0)
    }

    fn negated(self) -> Self {
        Real(-self.0)
    }

    fn magnitude(self) -> Self {
        Real(self.0.native_abs())
    }

    fn sign(self) -> Self {
        Real(self.0.native_signum())
    }

    fn greater_of(self, rhs: Self) -> Self {
        Real(CoreFloat::max(self.0, rhs.0))
    }

    fn doubled(self) -> Self {
        Real(self.0.double())
    }

    fn halved(self) -> Self {
        Real(self.0.half())
    }

    fn epsilon_value() -> Self {
        Real(F::EPSILON)
    }

    fn precedes(self, rhs: Self) -> bool {
        self.0 < rhs.0
    }

    fn equals(self, rhs: Self) -> bool {
        self.0 == rhs.0
    }

    fn zero() -> Self {
        Self::zero_value()
    }

    fn one() -> Self {
        Self::one_value()
    }

    fn add(self, rhs: Self) -> Self {
        self.plus(rhs)
    }

    fn sub(self, rhs: Self) -> Self {
        self.minus(rhs)
    }

    fn mul(self, rhs: Self) -> Self {
        self.times(rhs)
    }

    fn div(self, rhs: Self) -> Self {
        self.over(rhs)
    }

    fn neg(self) -> Self {
        self.negated()
    }

    fn abs(self) -> Self {
        self.magnitude()
    }

    fn signum(self) -> Self {
        self.sign()
    }

    fn max(self, rhs: Self) -> Self {
        self.greater_of(rhs)
    }

    fn double(self) -> Self {
        self.doubled()
    }

    fn half(self) -> Self {
        self.halved()
    }

    fn epsilon() -> Self {
        Self::epsilon_value()
    }

    fn lt(self, rhs: Self) -> bool {
        self.precedes(rhs)
    }

    fn eq(self, rhs: Self) -> bool {
        self.equals(rhs)
    }
}

fn reals<F: Native>(values: Vec<F>) -> Vec<Real<F>> {
    values.into_iter().map(Real).collect()
}

fn show<F: Native>(rows: usize, cols: usize, entry: impl Fn(usize, usize) -> Real<F>) -> String {
    let cells: Vec<Vec<String>> = (0..rows)
        .map(|i| (0..cols).map(|j| format!("{}", entry(i, j).0)).collect())
        .collect();
    render_spaced(&cells)
}

fn show_full(m: &MatrixFullVec<Real<f64>>) -> String {
    show(m.row_size(), m.col_size(), |i, j| m.get((i, j)))
}

fn show_square(m: &MatrixSquareFullVec<Real<f64>>) -> String {
    show(m.size(), m.size(), |i, j| m.get((i, j)))
}

fn show_lt(m: &MatrixLTVec<Real<f64>>) -> String {
    show(m.size(), m.size(), |i, j| m.get((i, j)))
}

fn show_ut(m: &MatrixUTVec<Real<f64>>) -> String {
    show(m.size(), m.size(), |i, j| m.get((i, j)))
}

fn show_permutation(m: &MatrixPermutationVec<Real<f64>>) -> String {
    show(m.size(), m.size(), |i, j| m.get((i, j)))
}

fn all_close<F: Native + AbsDiffEq<Epsilon = F>>(
    n: usize,
    a: impl Fn(usize, usize) -> Real<F>,
    b: impl Fn(usize, usize) -> Real<F>,
    epsilon: F,
) -> bool {
    (0..n).all(|i| (0..n).all(|j| a(i, j).0.abs_diff_eq(&b(i, j).0, epsilon)))
}

fn square_close<F: Native + AbsDiffEq<Epsilon = F>>(
    a: &MatrixSquareFullVec<Real<F>>,
    b: &MatrixSquareFullVec<Real<F>>,
    epsilon: F,
) -> bool {
    a.shape() == b.shape()
        && all_close(a.size(), |i, j| a.get((i, j)), |i, j| b.get((i, j)), epsilon)
}

fn lt_close(a: &MatrixLTVec<Real<f64>>, b: &MatrixLTVec<Real<f64>>, epsilon: f64) -> bool {
    a.shape() == b.shape()
        && all_close(a.size(), |i, j| a.get((i, j)), |i, j| b.get((i, j)), epsilon)
}

fn ut_close(a: &MatrixUTVec<Real<f64>>, b: &MatrixUTVec<Real<f64>>, epsilon: f64) -> bool {
    a.shape() == b.shape()
        && all_close(a.size(), |i, j| a.get((i, j)), |i, j| b.get((i, j)), epsilon)
}

fn vector_close(
    a: &VectorInnerVec<Real<f64>>,
    b: &VectorInnerVec<Real<f64>>,
    epsilon: f64,
) -> bool {
    a.len() == b.len() && (0..a.len()).all(|i| a.get(i).0.abs_diff_eq(&b.get(i).0, epsilon))
}

fn lu_product<F: Native>(mat: &MatrixSquareFullVec<Real<F>>) -> MatrixSquareFullVec<Real<F>> {
    let (lt, ut) = mat.lu().unwrap();
    MatrixSquareFullVec::from_lower(lt).mul(&MatrixSquareFullVec::from_upper(ut))
}

#[test]
fn square_matrix_inner_vec_test_matrix_ops_0() {
    let inner = reals(vec![1f32, 2., 3., 4., 5., 6., 7., 8., 9.]);
    let mut mat = MatrixSquareFullVec::new_with_vec(3, inner);
    assert!(mat.shape() == (3, 3).into());
    assert!(mat.row_size() == 3);
    assert!(mat.col_size() == 3);
    assert!(mat.is_square());
    assert!(mat.size() == 3);
    assert!(mat.get((1, 0)) == Real(4.));
    assert!(mat.get((2, 1)) == Real(8.));
    mat.set((1, 0), Real(-4.));
    assert!(mat.get((1, 0)) == Real(-4.));
}

#[test]
fn square_matrix_inner_vec_test_matrix_ops_1() {
    let inner_0 = vec![1., 2., 3., 4., 5., 6., 7., 8., 9.];
    let inner_1 = vec![2., 3., 4., 5., 6., 7., 8., 9., 10.];
    let inner_3 = vec![35., 40., 45., 77., 91., 105., 119., 142., 165.];

    let mat_0 = MatrixSquareFullVec::new_with_vec(3, reals(inner_0.clone()));
    let mat_1 = MatrixSquareFullVec::new_with_vec(3, reals(inner_1.clone()));
    let mat_3 = MatrixSquareFullVec::new_with_vec(3, reals(inner_3.clone()));

    assert!(mat_0 != mat_1);
    assert!(mat_0.mul(&mat_1).sub(&mat_0) == mat_3);

    assert!(
        mat_0.add(&mat_1)
            == MatrixSquareFullVec::new_with_vec(
                3,
                reals(inner_0.iter().map(|x| 2. * x + 1.).collect())
            )
    );

    assert!(
        mat_0.add(&mat_0)
            == MatrixSquareFullVec::new_with_vec(3, reals(inner_0.iter().map(|x| 2. * x).collect()))
    );

    assert!(
        mat_3.sub(&mat_0)
            == MatrixSquareFullVec::new_with_vec(
                3,
                reals(vec![34., 38., 42., 73., 86., 99., 112., 134., 156.])
            )
    );
}

#[test]
fn square_matrix_inner_vec_test_matrix_ops_2() {
    let inner_0 = vec![1., 2., 3., 4., 5., 6., 7., 8., 9.];
    let inner_1 = vec![1., 2., 3., 4., 5., 6., 7., 8., 9.];

    let mut mat_0 = MatrixSquareFullVec::new_with_vec(3, reals(inner_0.clone()));
    let mat_1 = MatrixSquareFullVec::new_with_vec(3, reals(inner_1.clone()));

    mat_0.add_assign(&mat_1);
    assert!(
        mat_0
            == MatrixSquareFullVec::new_with_vec(3, reals(inner_0.iter().map(|x| 2. * x).collect()))
    );

    mat_0.sub_assign(&mat_1);
    assert!(mat_0 == mat_1);

    mat_0.add_assign(&mat_1);
    assert!(
        mat_0
            == MatrixSquareFullVec::new_with_vec(3, reals(inner_0.iter().map(|x| 2. * x).collect()))
    );

    mat_0.sub_assign(&mat_1);
    assert!(mat_0 == mat_1);
}

#[test]
fn square_matrix_inner_vec_test_matrix_display() {
    let inner = reals(vec![1., 2., 3., 4., 5., 6., 7., 8., 9.]);
    let mat = MatrixSquareFullVec::new_with_vec(3, inner);
    assert!(
        show_square(&mat)
            == "[
[1, 2, 3],
[4, 5, 6],
[7, 8, 9]
]"
    );
}

#[test]
fn square_matrix_inner_vec_test_matrix_transpose() {
    let inner = reals(vec![1., 2., 3., 4., 5., 6., 7., 8., 9.]);
    let mat = MatrixSquareFullVec::new_with_vec(3, inner);
    assert!(
        show_square(&mat.transpose())
            == "[
[1, 4, 7],
[2, 5, 8],
[3, 6, 9]
]"
    );
}

#[test]
fn test_lu_factorization_0() {
    let mat = MatrixSquareFullVec::new_with_vec(
        3,
        reals(vec![1., 2., -1., 2., 1., -2., -3., 1., 1.]),
    );
    let (lt, ut) = mat.lu().unwrap();
    assert!(lt_close(
        &lt,
        &MatrixLTVec::new_with_vec(3, reals(vec![1., 2., 1., -3., -7. / 3., 1.])),
        f64::EPSILON * 2.
    ));
    assert!(ut_close(
        &ut,
        &MatrixUTVec::new_with_vec(3, reals(vec![1., 2., -1., -3., 0., -2.])),
        f64::EPSILON * 2.
    ));
    let mul_res = MatrixSquareFullVec::from_lower(lt).mul(&MatrixSquareFullVec::from_upper(ut));
    assert!(square_close(&mul_res, &mat, f64::EPSILON * 4.));

    let mat = MatrixSquareFullVec::new_with_vec(
        4,
        reals(vec![
            1., -1., 1., 2., 0., 2., 1., 0., 1., 3., 4., 4., 0., 2., 1., -1.,
        ]),
    );
    assert!(square_close(&lu_product(&mat), &mat, f64::EPSILON * 4.));

    let mat = MatrixSquareFullVec::new_with_vec(
        5,
        reals(vec![
            1., -1., 1., 2., 8.2, 0.99, 2., 1., 0.134, 2.9, 1.65, 3.34, 4.93, 4., 3.7, 0.24, 2.,
            1., -1., 4.4, 1., 2., 3., 4., 5.,
        ]),
    );
    assert!(square_close(&lu_product(&mat), &mat, f64::EPSILON * 4.));

    let mat = MatrixSquareFullVec::new_with_vec(
        5,
        reals(vec![
            1f32, -1., 1., 2., 8.2, 0.99, 2., 1., 0.134, 2.9, 1.65, 3.34, 4.93, 4., 3.7, 0.24, 2.,
            1., -1., 4.4, 1., 2., 3., 4., 5.,
        ]),
    );
    assert!(square_close(&lu_product(&mat), &mat, f32::EPSILON * 4.));
}

#[test]
fn test_lu_factorization_1() {
    let mat = MatrixSquareFullVec::new_with_vec(
        3,
        reals(vec![3f32, 1., 2., 6., 1., 4., 3., 1., 5.]),
    );
    assert!(square_close(&lu_product(&mat), &mat, f32::EPSILON));
}

#[test]
fn test_lu_factorization_2() {
    let mat = MatrixSquareFullVec::new_with_vec(
        3,
        reals(vec![4f32, 2., 0., 4., 4., 2., 2., 2., 3.]),
    );
    assert!(square_close(&lu_product(&mat), &mat, f32::EPSILON));
}

#[test]
fn test_lu_factorization_3() {
    let mat = MatrixSquareFullVec::new_with_vec(
        4,
        reals(vec![
            1f32, -1., 1., 2., 0., 2., 1., 0., 1., 3., 4., 4., 0., 2., 1., -1.,
        ]),
    );
    assert!(square_close(&lu_product(&mat), &mat, f32::EPSILON));
}

#[test]
fn square_matrix_inner_vec_test_lu_solve_0() {
    let mat_a = MatrixSquareFullVec::new_with_vec(
        3,
        reals(vec![4.8, 2., 0., 4.3, 4., 2., 2., 2., 3.]),
    );
    let b = Vector::new(reals(vec![2., 4., 6.]));
    let x = mat_a.lu_solve(&b).unwrap();
    println!("solution x = {x:#?}");
    let y = mat_a.transform_vector(&x);
    assert!(vector_close(&b, &y, f64::EPSILON * 2.))
}

#[test]
#[should_panic(expected = "pivot element at")]
fn square_matrix_inner_vec_test_lu_solve_1() {
    let mat_lt = MatrixLTVec::new_with_vec(3, reals(vec![0., 1., 3., 4., 1., 2.]))
        .extend_with_diagonal(&reals((0..4).map(|_| 1.0).collect()));
    let mat_ut =
        MatrixLTVec::new_with_vec(4, reals(vec![2., 1., 0., 0., 1., 2., 0., -1., 1., 1.]));
    let mat = MatrixSquareFullVec::from_lower(mat_lt).mul(&MatrixSquareFullVec::from_lower(mat_ut));
    println!("mat x = {}", show_square(&mat));
    let b = Vector::new(reals(vec![1., 1., 2., 0.]));
    let x = mat.lu_solve(&b).expect("pivot element at the diagonal is 0, LU Factorization halt.");
    println!("solution x = {x:#?}");
    let y = mat.transform_vector(&x);
    assert!(vector_close(&b, &y, f64::EPSILON * 2.))
}

#[test]
#[should_panic]
fn square_matrix_inner_vec_test_lu_solve_2() {
    let mat_a = MatrixSquareFullVec::new_with_vec(2, reals(vec![1e-20, 1., 1., 2.]));
    let b = Vector::new(reals(vec![1., 4.]));
    let x = mat_a.lu_solve(&b).unwrap();
    println!("solution x = {x:#?}");
    let y = mat_a.transform_vector(&x);
    println!("y = {x:#?}");
    assert!(vector_close(&b, &y, f64::EPSILON * 2.))
}

#[test]
fn test_matrix_exchange_row() {
    let inner = reals(vec![1., 2., 3., 4., 5., 6., 7., 8., 9.]);
    let mut mat = MatrixSquareFullVec::new_with_vec(3, inner);
    mat.exchange_row(0, 1);
    assert!(
        show_square(&mat)
            == "[
[4, 5, 6],
[1, 2, 3],
[7, 8, 9]
]"
    );
}

#[test]
fn test_pa_lu_0() {
    let mat = MatrixSquareFullVec::new_with_vec(
        3,
        reals(vec![2, 1, 5, 4, 4, -4, 1, 3, 1].iter().map(|x| *x as f64).collect()),
    );

    let (p, l, u) = mat.pa_lu().unwrap();
    assert!(p == MatrixPermutationVec::new_from_vec(vec![1, 2, 0]));
    assert!(lt_close(
        &l,
        &MatrixLTVec::new_with_vec(3, reals(vec![1., 0.25, 1., 0.5, -0.5, 1.])),
        f64::EPSILON
    ));
    assert!(ut_close(
        &u,
        &MatrixUTVec::new_with_vec(
            3,
            reals(vec![4, 4, -4, 2, 2, 8].iter().map(|x| *x as f64).collect())
        ),
        f64::EPSILON
    ));
}

#[test]
fn test_pa_lu_solve_0() {
    let mat_a = MatrixSquareFullVec::new_with_vec(
        3,
        reals(vec![4.8, 2., 0., 4.3, 4., 2., 2., 2., 3.]),
    );
    let b = Vector::new(reals(vec![2., 4., 6.]));
    let x = mat_a.pa_lu_solve(&b).unwrap();
    println!("solution x = {x:#?}");
    let y = mat_a.transform_vector(&x);
    assert!(vector_close(&b, &y, f64::EPSILON * 2.))
}

#[test]
fn test_pa_lu_solve_1() {
    let mat_a = MatrixSquareFullVec::new_with_vec(
        10,
        reals((0..100).map(|x| x as f64 + 0.3f64).collect()),
    );
    let b = Vector::new(reals((0..10).map(|x| x as f64 - 6.3f64).collect::<Vec<f64>>()));
    let x = mat_a.pa_lu_solve(&b).unwrap();
    println!("solution x = {x:#?}");
    let y = mat_a.transform_vector(&x);
    println!("mat_a * x = {y:#?}");
    println!("b = {b:#?}");
    assert!(vector_close(&b, &y, f64::EPSILON * 256.))
}

#[test]
fn test_pa_lu_solve_2() {
    let mat_a = MatrixSquareFullVec::new_with_vec(2, reals(vec![1e-20, 1., 1., 2.]));
    let b = Vector::new(reals(vec![1., 4.]));
    let x = mat_a.pa_lu_solve(&b).unwrap();
    println!("solution x = {x:#?}");
    let y = mat_a.transform_vector(&x);
    println!("y = {x:#?}");
    assert!(vector_close(&b, &y, f64::EPSILON))
}

#[test]
fn full_matrix_inner_vec_test_matrix_ops_0() {
    let inner = reals(vec![1f32, 2., 3., 4., 5., 6., 7., 8., 9.]);
    let mut mat = MatrixFullVec::new_with_vec((3, 3).into(), inner);
    assert!(mat.shape() == (3, 3).into());
    assert!(mat.row_size() == 3);
    assert!(mat.col_size() == 3);
    assert!(mat.is_square());
    assert!(mat.get((1, 0)) == Real(4.));
    assert!(mat.get((2, 1)) == Real(8.));
    mat.set((1, 0), Real(-4.));
    assert!(mat.get((1, 0)) == Real(-4.));
}

#[test]
fn full_matrix_inner_vec_test_matrix_ops_1() {
    let inner_0 = vec![1., 2., 3., 4., 5., 6., 7., 8., 9.];
    let inner_1 = vec![2., 3., 4., 5., 6., 7., 8., 9., 10.];
    let inner_2 = vec![1., 2., 3.];
    let inner_3 = vec![35., 40., 45., 77., 91., 105., 119., 142., 165.];

    let mat_0 = MatrixFullVec::new_with_vec((3, 3).into(), reals(inner_0.clone()));
    let mat_1 = MatrixFullVec::new_with_vec((3, 3).into(), reals(inner_1.clone()));
    let mat_2 = MatrixFullVec::new_with_vec((3, 1).into(), reals(inner_2.clone()));
    let mat_3 = MatrixFullVec::new_with_vec((3, 3).into(), reals(inner_3.clone()));

    assert!(!mat_2.is_square());

    assert!(mat_0 != mat_1);
    assert!(mat_0.mul(&mat_1).sub(&mat_0) == mat_3);
    assert!(
        mat_0.mul(&mat_2) == MatrixFullVec::new_with_vec((3, 1).into(), reals(vec![14., 32., 50.]))
    );

    assert!(
        mat_0.mul(&MatrixFullVec::new_with_vec(
            (3, 2).into(),
            reals(vec![1., 2., 4., 5., 7., 8.])
        )) == MatrixFullVec::new_with_vec(
            (3, 2).into(),
            reals(vec![30., 36., 66., 81., 102., 126.])
        )
    );

    assert!(
        mat_0.add(&mat_1)
            == MatrixFullVec::new_with_vec(
                (3, 3).into(),
                reals(inner_0.iter().map(|x| 2. * x + 1.).collect())
            )
    );

    assert!(
        mat_0.add(&mat_0)
            == MatrixFullVec::new_with_vec(
                (3, 3).into(),
                reals(inner_0.iter().map(|x| 2. * x).collect())
            )
    );

    assert!(
        mat_3.sub(&mat_0)
            == MatrixFullVec::new_with_vec(
                (3, 3).into(),
                reals(vec![34., 38., 42., 73., 86., 99., 112., 134., 156.])
            )
    );
}

#[test]
fn full_matrix_inner_vec_test_matrix_ops_2() {
    let inner_0 = vec![1., 2., 3., 4., 5., 6., 7., 8., 9.];
    let inner_1 = vec![1., 2., 3., 4., 5., 6., 7., 8., 9.];

    let mut mat_0 = MatrixFullVec::new_with_vec((3, 3).into(), reals(inner_0.clone()));
    let mat_1 = MatrixFullVec::new_with_vec((3, 3).into(), reals(inner_1.clone()));

    mat_0.add_assign(&mat_1);
    assert!(
        mat_0
            == MatrixFullVec::new_with_vec(
                (3, 3).into(),
                reals(inner_0.iter().map(|x| 2. * x).collect())
            )
    );

    mat_0.sub_assign(&mat_1);
    assert!(mat_0 == mat_1);

    mat_0.add_assign(&mat_1);
    assert!(
        mat_0
            == MatrixFullVec::new_with_vec(
                (3, 3).into(),
                reals(inner_0.iter().map(|x| 2. * x).collect())
            )
    );

    mat_0.sub_assign(&mat_1);
    assert!(mat_0 == mat_1);
}

#[test]
fn full_matrix_inner_vec_test_matrix_display() {
    let inner = reals(vec![1., 2., 3., 4., 5., 6., 7., 8., 9.]);
    let mat = MatrixFullVec::new_with_vec((3, 3).into(), inner);
    assert!(
        show_full(&mat)
            == "[
[1, 2, 3],
[4, 5, 6],
[7, 8, 9]
]"
    );
}

#[test]
fn lt_matrix_inner_vec_test_matrix_ops_0() {
    let inner = reals(vec![1., 4., 5., 7., 8., 9.]);
    let mut mat = MatrixLTVec::new_with_vec(3, inner);
    assert!(mat.shape() == (3, 3).into());
    assert!(mat.row_size() == 3);
    assert!(mat.col_size() == 3);
    assert!(mat.size() == 3);
    assert!(mat.get((1, 0)) == Real(4.));
    assert!(mat.get((2, 1)) == Real(8.));
    mat.set((1, 0), Real(-4.));
    assert!(mat.get((1, 0)) == Real(-4.));
}

#[test]
fn lt_matrix_inner_vec_test_matrix_ops_1() {
    let inner_0 = vec![1f32, 4., 5., 7., 8., 9.];
    let inner_1 = vec![2., 5., 6., 8., 9., 10.];

    let mat_0 = MatrixLTVec::new_with_vec(3, reals(inner_0.clone()));
    let mat_1 = MatrixLTVec::new_with_vec(3, reals(inner_1.clone()));

    assert!(mat_0 != mat_1);

    assert!(
        mat_0.add(&mat_1) == MatrixLTVec::new_with_vec(3, reals(vec![3., 9., 11., 15., 17., 19.]))
    );
    assert!(mat_0.sub(&mat_1) == MatrixLTVec::new_with_vec(3, reals(vec![-1.; 6])));
    assert!(
        mat_0.mul(&mat_1)
            == MatrixLTVec::new_with_vec(3, reals(vec![2., 33., 30., 126., 129., 90.]))
    );
}

#[test]
fn lt_matrix_inner_vec_test_matrix_ops_2() {
    let inner_0 = vec![1., 4., 5., 7., 8., 9.];
    let inner_1 = vec![2., 5., 6., 8., 9., 10.];

    let mut mat_0 = MatrixLTVec::new_with_vec(3, reals(inner_0.clone()));
    let mat_1 = MatrixLTVec::new_with_vec(3, reals(inner_1.clone()));

    assert!(mat_0 != mat_1);

    mat_0.add_assign(&mat_1);
    assert!(mat_0 == MatrixLTVec::new_with_vec(3, reals(vec![3., 9., 11., 15., 17., 19.])));

    mat_0.sub_assign(&mat_1);
    assert!(mat_0 == MatrixLTVec::new_with_vec(3, reals(vec![1., 4., 5., 7., 8., 9.])));
}

#[test]
fn lt_matrix_inner_vec_test_matrix_display() {
    let inner = reals(vec![1., 4., 5., 7., 8., 9.]);
    let mat = MatrixLTVec::new_with_vec(3, inner);
    assert!(
        show_lt(&mat)
            == "[
[1, 0, 0],
[4, 5, 0],
[7, 8, 9]
]"
    );
}

#[test]
fn lt_matrix_inner_vec_test_matrix_transpose() {
    let inner = reals(vec![1., 4., 5., 7., 8., 9.]);
    let mat = MatrixLTVec::new_with_vec(3, inner);
    println!("mat transpose = {}", show_ut(&mat.transpose()));
    assert!(
        show_ut(&mat.transpose())
            == "[
[1, 4, 7],
[0, 5, 8],
[0, 0, 9]
]"
    );
}

#[test]
fn lt_matrix_inner_vec_test_matrix_extend_with_diagonal() {
    let inner = reals(vec![1., 4., 5., 7., 8., 9.]);
    let mat = MatrixLTVec::new_with_vec(3, inner);
    let diagonal = reals(vec![10., 11., 12., 13.]);
    assert!(
        show_lt(&mat.extend_with_diagonal(&diagonal))
            == "[
[10, 0, 0, 0],
[1, 11, 0, 0],
[4, 5, 12, 0],
[7, 8, 9, 13]
]"
    );
}

#[test]
fn ut_matrix_inner_vec_test_matrix_ops_0() {
    let inner = reals(vec![1., 2., 3., 5., 6., 9.]);
    let mut mat = MatrixUTVec::new_with_vec(3, inner);
    assert!(mat.shape() == (3, 3).into());
    assert!(mat.row_size() == 3);
    assert!(mat.col_size() == 3);
    assert!(mat.size() == 3);
    assert!(mat.get((1, 2)) == Real(6.));
    assert!(mat.get((2, 2)) == Real(9.));
    mat.set((1, 2), Real(-6.));
    assert!(mat.get((1, 2)) == Real(-6.));
}

#[test]
fn ut_matrix_inner_vec_test_matrix_ops_1() {
    let inner_0 = vec![1., 4., 5., 7., 8., 9.];
    let inner_1 = vec![2., 5., 6., 8., 9., 10.];

    let mat_0 = MatrixUTVec::new_with_vec(3, reals(inner_0.clone()));
    let mat_1 = MatrixUTVec::new_with_vec(3, reals(inner_1.clone()));

    assert!(mat_0 != mat_1);

    assert!(
        mat_0.add(&mat_1) == MatrixUTVec::new_with_vec(3, reals(vec![3., 9., 11., 15., 17., 19.]))
    );
    assert!(mat_0.sub(&mat_1) == MatrixUTVec::new_with_vec(3, reals(vec![-1.; 6])));
    assert!(
        mat_0.mul(&mat_1)
            == MatrixUTVec::new_with_vec(3, reals(vec![2., 37., 92., 56., 143., 90.]))
    );
}

#[test]
fn ut_matrix_inner_vec_test_matrix_ops_2() {
    let inner_0 = vec![1f32, 4., 5., 7., 8., 9.];
    let inner_1 = vec![2., 5., 6., 8., 9., 10.];

    let mut mat_0 = MatrixUTVec::new_with_vec(3, reals(inner_0.clone()));
    let mat_1 = MatrixUTVec::new_with_vec(3, reals(inner_1.clone()));

    assert!(mat_0 != mat_1);

    mat_0.add_assign(&mat_1);
    assert!(mat_0 == MatrixUTVec::new_with_vec(3, reals(vec![3., 9., 11., 15., 17., 19.])));

    mat_0.sub_assign(&mat_1);
    assert!(mat_0 == MatrixUTVec::new_with_vec(3, reals(vec![1., 4., 5., 7., 8., 9.])));
}

#[test]
fn ut_matrix_inner_vec_test_matrix_display() {
    let inner = reals(vec![1., 4., 5., 7., 8., 9.]);
    let mat = MatrixUTVec::new_with_vec(3, inner);
    assert!(
        show_ut(&mat)
            == "[
[1, 4, 5],
[0, 7, 8],
[0, 0, 9]
]"
    );
}

#[test]
fn ut_matrix_inner_vec_test_matrix_transpose() {
    let inner = reals(vec![1., 4., 5., 7., 8., 9.]);
    let mat = MatrixUTVec::new_with_vec(3, inner);
    assert!(
        show_lt(&mat.transpose())
            == "[
[1, 0, 0],
[4, 7, 0],
[5, 8, 9]
]"
    );
}

#[test]
fn ut_matrix_inner_vec_test_matrix_extend_with_diagonal() {
    let inner = reals(vec![1., 4., 5., 7., 8., 9.]);
    let mat = MatrixUTVec::new_with_vec(3, inner);
    let diagonal = reals(vec![10., 11., 12., 13.]);
    assert!(
        show_ut(&mat.extend_with_diagonal(&diagonal))
            == "[
[10, 1, 4, 5],
[0, 11, 7, 8],
[0, 0, 12, 9],
[0, 0, 0, 13]
]"
    );
}

#[test]
fn test_back_substitution() {
    let lt_m = MatrixUTVec::new_with_vec(3, reals(vec![1., 2., -1., -3., 0., -2.]));
    let b = Vector::new(reals(vec![3., -3., -4.]));
    let x = lt_m.back_substitution(&b);
    assert!(
        vector_close(&x, &Vector::new(reals(vec![3., 1., 2.])), f64::EPSILON),
        "x = {x:#?}"
    );
}

#[test]
fn test_exchange() {
    let mut pm = MatrixPermutationVec::<Real<f64>>::identity(10);
    for i in 0..10 {
        for j in 0..10 {
            if i == j {
                assert!(pm.get((i, j)) == Real(1f64));
            } else {
                assert!(pm.get((i, j)) == Real(0f64));
            }
        }
    }

    pm.exchange(3, 6);

    assert!(pm.get((3, 6)) == Real(1f64));
    assert!(pm.get((3, 3)) == Real(0f64));
    assert!(pm.get((6, 3)) == Real(1f64));
    assert!(pm.get((6, 6)) == Real(0f64));

    println!("pm = {}", show_permutation(&pm));
}

#[test]
fn test_mul_self() {
    let pm_0 = MatrixPermutationVec::<Real<f64>>::new_from_vec(vec![0, 1, 3, 2]);
    let pm_1 = MatrixPermutationVec::<Real<f64>>::new_from_vec(vec![1, 0, 2, 3]);
    let pm_2 = pm_0.mul(&pm_1);
    assert!(
        show_permutation(&pm_2)
            == "[
[0, 1, 0, 0],
[1, 0, 0, 0],
[0, 0, 0, 1],
[0, 0, 1, 0]
]"
    );
}

#[test]
fn test_mul_square() {
    let pm_0 = MatrixPermutationVec::<Real<f64>>::new_from_vec(vec![0, 1, 3, 2]);
    let pm_1 = MatrixPermutationVec::<Real<f64>>::new_from_vec(vec![1, 0, 2, 3]);
    let pm_2 = pm_0.mul(&pm_1);
    let m = pm_2.mul_matrix(&MatrixSquareFullVec::new_with_vec(
        4,
        reals((0..16).map(|x| x as f64).collect()),
    ));
    assert!(
        show_square(&m)
            == "[
[4, 5, 6, 7],
[0, 1, 2, 3],
[12, 13, 14, 15],
[8, 9, 10, 11]
]"
    );
}

#[test]
fn test_mul_vector() {
    let pm_0 = MatrixPermutationVec::<Real<f64>>::new_from_vec(vec![0, 1, 3, 2]);
    let pm_1 = MatrixPermutationVec::<Real<f64>>::new_from_vec(vec![1, 0, 2, 3]);
    let pm_2 = pm_0.mul(&pm_1);
    let v = pm_2.mul_vector(&VectorInnerVec::new(reals(vec![0., 1., 2., 3.])));
    assert!(v.get(0) == Real(1.0));
    assert!(v.get(1) == Real(0.0));
    assert!(v.get(2) == Real(3.0));
    assert!(v.get(3) == Real(2.0));
}

#[test]
fn test_mul_self_1() {
    let pm_0 = MatrixPermutationVec::<Real<f64>>::new_from_vec(vec![0, 1, 3, 2]);
    let pm_1 = MatrixPermutationVec::<Real<f64>>::new_from_vec(vec![1, 0, 2, 3]);
    let pm_2 = (&pm_0).mul(&pm_1);
    assert!(
        show_permutation(&pm_2)
            == "[
[0, 1, 0, 0],
[1, 0, 0, 0],
[0, 0, 0, 1],
[0, 0, 1, 0]
]"
    );
}

#[test]
fn test_mul_square_1() {
    let pm_0 = MatrixPermutationVec::<Real<f64>>::new_from_vec(vec![0, 1, 3, 2]);
    let pm_1 = MatrixPermutationVec::<Real<f64>>::new_from_vec(vec![1, 0, 2, 3]);
    let pm_2 = pm_0.mul(&pm_1);
    let m = (&pm_2).mul_matrix(&MatrixSquareFullVec::new_with_vec(
        4,
        reals((0..16).map(|x| x as f64).collect()),
    ));
    assert!(
        show_square(&m)
            == "[
[4, 5, 6, 7],
[0, 1, 2, 3],
[12, 13, 14, 15],
[8, 9, 10, 11]
]"
    );
}

#[test]
fn test_mul_vector_1() {
    let pm_0 = MatrixPermutationVec::<Real<f64>>::new_from_vec(vec![0, 1, 3, 2]);
    let pm_1 = MatrixPermutationVec::<Real<f64>>::new_from_vec(vec![1, 0, 2, 3]);
    let pm_2 = pm_0.mul(&pm_1);
    let v = (&pm_2).mul_vector(&VectorInnerVec::new(reals(vec![0., 1., 2., 3.])));
    assert!(v.get(0) == Real(1.0));
    assert!(v.get(1) == Real(0.0));
    assert!(v.get(2) == Real(3.0));
    assert!(v.get(3) == Real(2.0));
}

#[test]
fn test_exchange_on_the_identity_of_size_10() {
    let mut pm = MatrixPermutationVec::<Real<f64>>::identity(10);
    pm.exchange(3, 6);
    let mut expected: Vec<usize> = (0..10).collect();
    expected[3] = 6;
    expected[6] = 3;
    assert!(pm == MatrixPermutationVec::new_from_vec(expected));
    pm.exchange(4, 4);
    pm.exchange(3, 6);
    assert!(pm == MatrixPermutationVec::identity(10));
}

#[test]
fn test_composition_acts_as_its_factors_in_turn() {
    let p0 = MatrixPermutationVec::<Real<f64>>::new_from_vec(vec![2, 0, 3, 1]);
    let p1 = MatrixPermutationVec::<Real<f64>>::new_from_vec(vec![1, 0, 3, 2]);
    let v = VectorInnerVec::new(reals(vec![10., 11., 12., 13.]));
    let at_once = p0.mul(&p1).mul_vector(&v);
    let in_turn = p0.mul_vector(&p1.mul_vector(&v));
    assert!(at_once == in_turn);
    assert!(p0.mul(&p1) == MatrixPermutationVec::new_from_vec(vec![3, 1, 2, 0]));
    assert!(at_once == VectorInnerVec::new(reals(vec![13., 11., 12., 10.])));
}

#[test]
fn test_vector_storage() {
    let mut v = VectorInnerVec::new(reals(vec![1., 2.]));
    assert_eq!(v.len(), 2);
    assert!(!v.is_empty());
    v.push(Real(3.));
    v.set(0, Real(-1.));
    assert_eq!(v.into_inner(), reals(vec![-1., 2., 3.]));
    assert!(Vector::<Real<f64>, Vec<Real<f64>>>::new(vec![]).is_empty());
}

#[test]
fn test_full_matrix_transpose_and_exchange_row() {
    let mat = MatrixFullVec::new_with_vec((2, 3).into(), reals(vec![1., 2., 3., 4., 5., 6.]));
    let t = mat.transpose();
    assert!(t.shape() == Index2D { row: 3, col: 2 });
    assert!(t == MatrixFullVec::new_with_vec((3, 2).into(), reals(vec![1., 4., 2., 5., 3., 6.])));
    let mut mat = mat;
    mat.exchange_row(0, 1);
    assert!(mat == MatrixFullVec::new_with_vec((2, 3).into(), reals(vec![4., 5., 6., 1., 2., 3.])));
    mat.exchange_row(7, 7);
    assert!(mat == MatrixFullVec::new_with_vec((2, 3).into(), reals(vec![4., 5., 6., 1., 2., 3.])));
    let square = MatrixSquareFullVec::new_with_vec(2, reals(vec![1., 2., 3., 4.]));
    assert!(MatrixFullVec::from_square(square.clone()).shape_eq(square));
}

#[test]
fn test_forward_substitution() {
    let lt_m = MatrixLTVec::new_with_vec(3, reals(vec![2., 1., 4., 3., 5., 10.]));
    let b = Vector::new(reals(vec![2., 9., 38.]));
    let x = lt_m.back_substitution(&b);
    assert!(x == Vector::new(reals(vec![1., 2., 2.5])));
}

#[test]
fn test_lu_without_row_exchanges_stops_at_a_zero_pivot() {
    let mat = MatrixSquareFullVec::new_with_vec(2, reals(vec![0., 1., 1., 2.]));
    assert!(mat.lu().is_none());
    assert!(mat.lu_solve(&Vector::new(reals(vec![1., 4.]))).is_none());
    let x = mat.pa_lu_solve(&Vector::new(reals(vec![1., 4.]))).unwrap();
    assert!(x == Vector::new(reals(vec![2., 1.])));
}

#[test]
fn test_pa_lu_of_a_singular_matrix() {
    let mat = MatrixSquareFullVec::new_with_vec(
        3,
        reals(vec![2., 1., 5., 4., 4., -4., -2., -1., -5.]),
    );
    assert!(mat.pa_lu().is_none());
    assert!(mat.pa_lu_solve(&Vector::new(reals(vec![1., 2., 3.]))).is_none());
}

#[test]
fn test_row_by_row_walk() {
    let mat = MatrixFullVec::new_with_vec((2, 3).into(), reals(vec![1., 2., 3., 4., 5., 6.]));
    let mut walk = mat.row_by_row_iter();
    let mut seen = vec![];
    while let Some(position) = walk.next() {
        seen.push(mat.get((position.row, position.col)));
    }
    assert!(seen == reals(vec![1., 2., 3., 4., 5., 6.]));
    assert!(walk.next().is_none());

    let empty = MatrixFullVec::<Real<f64>>::new_with_vec((3, 0).into(), vec![]);
    assert!(empty.row_by_row_iter().next().is_none());
}
