use core_float::CoreFloat;
use numerical::base_float::BaseFloat;
use numerical::dim1_func::{ContinuousFunc, Dim1ContinuousFunc, Dim1Func};
use numerical::dim1_solver::bisection::BisectionSolver;
use numerical::dim1_solver::brent::{
    inverse_quadratic_interpolate, secant_iter, step, Bracket, BrentSolver, BrentStep, XYPair,
};
use numerical::dim1_solver::dim1_newton::Dim1NewtonSolver;
use numerical::dim1_solver::fixed_point::FixedPointSolver;
use numerical::dim1_solver::{is_small_step, Dim1Solver, DEFAULT_ITER_COUNT_LIMIT};
use numerical::polynomial::Polynomial;

trait Native: CoreFloat {
    fn native_abs(self) -> Self;
    fn native_signum(self) -> Self;
}

impl Native for f32 {
    fn native_abs(self) -> Self {
        f32::abs(self)
    }

    fn native_signum(self) -> Self {
        f32::signum(self)
    }
}

impl Native for f64 {
    fn native_abs(self) -> Self {
        f64::abs(self)
    }

    fn native_signum(self) -> Self {
        f64::signum(self)
    }
}

#[derive(Clone, Copy, Debug, PartialEq, PartialOrd)]
struct Real<F>(F);

impl<F: Native> BaseFloat for Real<F> {
    fn zero_value() -> Self {
        Real(F::ZERO)
    }

    fn one_value() -> Self {
        Real(F::ONE)
    }

    fn plus(self, rhs: Self) -> Self {
        Real(self.0 + rhs.0)
    }

    fn minus(self, rhs: Self) -> Self {
        Real(self.0 - rhs.0)
    }

    fn times(self, rhs: Self) -> Self {
        Real(self.0 * rhs.0)
    }

    fn over(self, rhs: Self) -> Self {
        Real(self.0 / rhs.0)
    }

    fn negated(self) -> Self {
        Real(-self.0)
    }

    fn magnitude(self) -> Self {
        Real(self.0.native_abs())
    }

    fn sign(self) -> Self {
        Real(self.0.native_signum())
    }

    fn greater_of(self, rhs: Self) -> Self {
        Real(CoreFloat::max(self.0, rhs.0))
    }

    fn doubled(self) -> Self {
        Real(self.0.double())
    }

    fn halved(self) -> Self {
        Real(self.0.half())
    }

    fn epsilon_value() -> Self {
        Real(F::EPSILON)
    }

    fn precedes(self, rhs: Self) -> bool {
        self.0 < rhs.0
    }

    fn equals(self, rhs: Self) -> bool {
        self.0 == rhs.0
    }

    fn zero() -> Self {
        Self::zero_value()
    }

    fn one() -> Self {
        Self::one_value()
    }

    fn add(self, rhs: Self) -> Self {
        self.plus(rhs)
    }

    fn sub(self, rhs: Self) -> Self {
        self.minus(rhs)
    }

    fn mul(self, rhs: Self) -> Self {
        self.times(rhs)
    }

    fn div(self, rhs: Self) -> Self {
        self.over(rhs)
    }

    fn neg(self) -> Self {
        self.negated()
    }

    fn abs(self) -> Self {
        self.magnitude()
    }

    fn signum(self) -> Self {
        self.sign()
    }

    fn max(self, rhs: Self) -> Self {
        self.greater_of(rhs)
    }

    fn double(self) -> Self {
        self.doubled()
    }

    fn half(self) -> Self {
        self.halved()
    }

    fn epsilon() -> Self {
        Self::epsilon_value()
    }

    fn lt(self, rhs: Self) -> bool {
        self.precedes(rhs)
    }

    fn eq(self, rhs: Self) -> bool {
        self.equals(rhs)
    }
}

fn reals<F: Native>(values: Vec<F>) -> Vec<Real<F>> {
    values.into_iter().map(Real).collect()
}

struct SimpleDim1ContinuousFunc<F>(F);

impl<T, F: Fn(T) -> T> Dim1Func<T> for SimpleDim1ContinuousFunc<F> {
    fn value(&self, x: T) -> T {
        (self.0)(x)
    }

    fn eval(&self, x: T) -> T {
        self.value(x)
    }
}

impl<F> ContinuousFunc for SimpleDim1ContinuousFunc<F> {}

impl<T, F: Fn(T) -> T> Dim1ContinuousFunc<T> for SimpleDim1ContinuousFunc<F> {}

fn func(f: impl Fn(f64) -> f64) -> SimpleDim1ContinuousFunc<impl Fn(Real<f64>) -> Real<f64>> {
    SimpleDim1ContinuousFunc(move |x: Real<f64>| Real(f(x.0)))
}

#[test]
fn test_brent_0() {
    let f = Polynomial::with_coefficients(reals(vec![-1., 1., 0., 1.]));
    let solver =
        BrentSolver::with_search_range([Real(0.), Real(1.)]).with_error_tolerance(Real(1e-14));
    let result: f64 = solver.solve(&f).solution.unwrap().0;
    // large forward error
    assert!((result - 0.682328).abs() < 1e-6, "root = {}", result);
}

#[test]
fn test_brent_1() {
    let f = Polynomial::with_coefficients(reals(vec![-4., 16., 35., -69., -102., 45., 54.]));
    let ranges = [[-1.5, -1.], [0., 0.3], [0.3, 0.8], [0.8, 1.5]];
    let solvers = ranges.map(|r: [f64; 2]| {
        BrentSolver::with_search_range(r.map(Real)).with_error_tolerance(Real(1e-14))
    });
    let roots = solvers.map(|s| s.solve(&f).solution.unwrap());
    let backward_errors = roots.map(|x| f.eval(x));
    println!("roots = {:?}", roots);
    for i in 0..roots.len() {
        assert!(backward_errors[i].0.abs() < 1e-8,);
    }
}

#[test]
fn test_brent_2() {
    let f = Polynomial::<Real<f32>>::with_coefficients(reals(vec![
        -4., 16., 35., -69., -102., 45., 54.,
    ]));
    let ranges = [[-1.5, -1.], [0., 0.3], [0.3, 0.8], [0.8, 1.5]];
    let solvers = ranges.map(|r: [f32; 2]| {
        BrentSolver::with_search_range(r.map(Real)).with_error_tolerance(Real(1e-6))
    });
    let roots = solvers.map(|s| s.solve(&f).solution.unwrap());
    let backward_errors = roots.map(|x| f.eval(x));
    println!("roots = {:?}", roots);
    for i in 0..roots.len() {
        assert!(backward_errors[i].0.abs() < 1e-3,);
    }
}

#[test]
#[should_panic(expected = "Illegal initial guess")]
fn test_brent_illegal_range() {
    let f = Polynomial::<Real<f32>>::with_coefficients(reals(vec![1., -2., 1.]));
    let range = [Real(0.), Real(2.)];
    let solver = BrentSolver::with_search_range(range).with_error_tolerance(Real(1e-6));
    assert!(f.eval(range[0]).sig_ne(f.eval(range[1])), "Illegal initial guess: {range:?}");
    solver.solve(&f);
}

#[test]
fn test_dim1_newton_0() {
    let g = func(|x: f64| 1. / x - x / 2.);
    let dg = func(|x: f64| -1. / (x * x) - 0.5);
    let solver = Dim1NewtonSolver::new(Real(10.), &g, &dg).with_error_tolerance(Real(1e-14));
    let result = solver.solve().solution.unwrap().0;
    assert!((result - 2.0_f64.sqrt()).abs() < 1e-8, "root = {}", result);
}

#[test]
fn test_dim1_newton_1() {
    let g = Polynomial::with_coefficients(reals(vec![-1., 1., 0., 1.]));
    let dg = func(|x: f64| 3. * (x * x) + 1.);
    let solver = Dim1NewtonSolver::new(Real(10.), &g, &dg).with_error_tolerance(Real(1e-14));
    let result = solver.solve().solution.unwrap().0;
    assert!((result - 0.68232780).abs() < 1e-8, "root = {}", result);
}

#[test]
fn test_dim1_newton_2() {
    let g = Polynomial::with_coefficients(reals(vec![-11. / 4., 0., -6., 0., 4.]));
    let dg = func(|x: f64| 16. * (x * x * x) - 12. * x);
    let solver = Dim1NewtonSolver::new(Real(0.5), &g, &dg).with_error_tolerance(Real(1e-14));
    assert!(solver.solve().solution.is_none());
    let solver = Dim1NewtonSolver::new(Real(0.65), &g, &dg).with_error_tolerance(Real(1e-14));
    assert!(!solver.solve().solution.is_none());
}

#[test]
fn test_bisection_0() {
    let f = func(|x: f64| 2. * x + 1.);
    let solver = BisectionSolver::with_search_range([Real(-10.), Real(10.)])
        .with_error_tolerance(Real(1e-5));
    let result = solver.solve(&f).solution.unwrap().0;
    assert!((result + 0.5).abs() < 1e-3, "root = {}", result);
}

#[test]
fn test_bisection_1() {
    let f = Polynomial::with_coefficients(reals(vec![2., -3., 1.]));
    let solver_a = BisectionSolver::with_search_range([Real(-10.), Real(1.5)])
        .with_error_tolerance(Real(1e-5));
    let solver_b = BisectionSolver::with_search_range([Real(1.5), Real(10.)])
        .with_error_tolerance(Real(1e-5));
    let result_a: f64 = solver_a.solve(&f).solution.unwrap().0;
    let result_b: f64 = solver_b.solve(&f).solution.unwrap().0;
    assert!((result_a - 1.).abs() < 1e-3, "root a = {}", result_a);
    assert!((result_b - 2.).abs() < 1e-3, "root b = {}", result_b);
}

#[test]
fn test_bisection_2() {
    let f = Polynomial::with_coefficients(reals(vec![-8. / 27., 4. / 3., -2., 1.]));
    let solver = BisectionSolver::with_search_range([Real(0.), Real(2.)])
        .with_error_tolerance(Real(1e-14));
    let result: f64 = solver.solve(&f).solution.unwrap().0;
    // large forward error
    assert!((result - 2. / 3.).abs() > 1e-6, "root = {}", result);
}

#[test]
fn test_fixed_point_0() {
    let g = func(|x: f64| 1. / x - x / 2.);
    let solver = FixedPointSolver::with_start_point(Real(10.)).with_error_tolerance(Real(1e-14));
    let result = solver.solve(&g).solution.unwrap().0;
    assert!((result - 2.0_f64.sqrt()).abs() < 1e-3, "root = {}", result);
}

#[test]
fn test_fixed_point_1() {
    let g = func(|x: f64| x.cos() - x);
    let solver = FixedPointSolver::with_start_point(Real(10.)).with_error_tolerance(Real(1e-14));
    let result = solver.solve(&g).solution.unwrap();
    assert!(g.eval(result).0.abs() < 1e-10, "root = {}", result.0);
}

#[test]
fn test_fixed_point_2() {
    let g = func(|x: f64| 2.5 * x - 2.5);
    let solver = FixedPointSolver::with_start_point(Real(10.3)).with_error_tolerance(Real(1e-14));
    let result = solver.solve(&g);
    assert!(result.solution.is_none());
}

#[test]
fn test_solvers_count_their_steps() {
    let g = func(|x: f64| 2.5 * x - 2.5);
    let solver = FixedPointSolver::new(Real(10.3), Real(1e-14), 7);
    let result = solver.solve(&g);
    assert!(result.solution().is_none());
    assert_eq!(result.iter_count(), 7);
    let solver = FixedPointSolver::with_start_point(Real(10.3));
    assert_eq!(solver.solve(&g).iter_count(), DEFAULT_ITER_COUNT_LIMIT);
    let solver = FixedPointSolver::with_start_point(Real(10.3)).with_iter_count_limit(3);
    assert_eq!(solver.solve(&g).iter_count(), 3);

    let still = func(|_: f64| 0.);
    let result = FixedPointSolver::with_start_point(Real(4.)).solve(&still);
    assert!(result.solution() == Some(Real(4.)));
    assert_eq!(result.iter_count(), 1);

    let line = func(|x: f64| x - 3.);
    let slope = func(|_: f64| 1.);
    let result = Dim1NewtonSolver::new(Real(10.), &line, &slope).with_iter_count_limit(5).solve();
    assert!(result.solution() == Some(Real(3.)));
    assert_eq!(result.iter_count(), 2);
    let result = Dim1NewtonSolver::new(Real(10.), &line, &slope).with_iter_count_limit(1).solve();
    assert!(result.solution().is_none());
    assert_eq!(result.iter_count(), 1);
}

#[test]
fn test_bisection_halves_until_the_interval_is_narrow() {
    let f = func(|x: f64| x - 0.3);
    let solver =
        BisectionSolver::with_search_range([Real(0.), Real(1.)]).with_error_tolerance(Real(0.1));
    let result = solver.solve(&f);
    assert!(result.solution() == Some(Real(0.3125)));
    assert_eq!(result.iter_count(), 3);

    let g = func(|x: f64| x - 0.5);
    let result = solver.solve(&g);
    assert!(result.solution() == Some(Real(0.5)));
    assert_eq!(result.iter_count(), 0);
}

#[test]
fn test_small_steps() {
    assert!(is_small_step(Real(1.0), Real(1.05), Real(0.1)));
    assert!(!is_small_step(Real(1.0), Real(1.5), Real(0.1)));
    assert!(is_small_step(Real(100.0), Real(105.0), Real(0.1)));
}

#[test]
fn test_brent_estimates() {
    let p = XYPair::new(Real(0.), Real(-1.));
    let q = XYPair::new(Real(2.), Real(3.));
    assert!(secant_iter(&p, &q) == Real(0.5));

    let parabola = |y: f64| y * y - 1.;
    let bracket = Bracket {
        first: XYPair::new(Real(parabola(-2.)), Real(-2.)),
        middle: XYPair::new(Real(parabola(1.)), Real(1.)),
        last: XYPair::new(Real(parabola(3.)), Real(3.)),
    };
    assert!(inverse_quadratic_interpolate(&bracket) == Real(-1.));
}

#[test]
fn test_brent_step_finds_an_exact_zero() {
    let f = func(|x: f64| x - 0.25);
    let bracket = Bracket {
        first: XYPair::new(Real(0.), Real(-0.25)),
        middle: XYPair::new(Real(0.5), Real(0.25)),
        last: XYPair::new(Real(1.), Real(0.75)),
    };
    assert!(matches!(step(&f, &bracket), BrentStep::Found(x) if x == Real(0.25)));
}
