use approx::AbsDiffEq;
use core_float::CoreFloat;
use numerical::base_float::BaseFloat;
use numerical::complex::Complex;
use numerical::fft::{is_power_of_2, NaiveDFT, RecursiveBisectionFFT, DFT};
use rand::rngs::StdRng;
use rand::{Rng, SeedableRng};

trait Native: CoreFloat {
    fn native_abs(self) -> Self;
    fn native_signum(self) -> Self;
}

impl Native for f64 {
    fn native_abs(self) -> Self {
        f64::abs(self)
    }

    fn native_signum(self) -> Self {
        f64::signum(self)
    }
}

#[derive(Clone, Copy, Debug, PartialEq, PartialOrd)]
struct Real<F>(F);

impl<F: Native> BaseFloat for Real<F> {
    fn zero_value() -> Self {
        Real(F::ZERO)
    }

    fn one_value() -> Self {
        Real(F::ONE)
    }

    fn plus(self, rhs: Self) -> Self {
        Real(self.0 + rhs.0)
    }

    fn minus(self, rhs: Self) -> Self {
        Real(self.0 - rhs.0)
    }

    fn times(self, rhs: Self) -> Self {
        Real(self.0 * rhs.0)
    }

    fn over(self, rhs: Self) -> Self {
        Real(self.0 / rhs.0)
    }

    fn negated(self) -> Self {
        Real(-self.0)
    }

    fn magnitude(self) -> Self {
        Real(self.0.native_abs())
    }

    fn sign(self) -> Self {
        Real(self.0.native_signum())
    }

    fn greater_of(self, rhs: Self) -> Self {
        Real(CoreFloat::max(self.0, rhs.0))
    }

    fn doubled(self) -> Self {
        Real(self.0.double())
    }

    fn halved(self) -> Self {
        Real(self.0.half())
    }

    fn epsilon_value() -> Self {
        Real(F::EPSILON)
    }

    fn precedes(self, rhs: Self) -> bool {
        self.0 < rhs.0
    }

    fn equals(self, rhs: Self) -> bool {
        self.0 == rhs.0
    }

    fn zero() -> Self {
        Self::zero_value()
    }

    fn one() -> Self {
        Self::one_value()
    }

    fn add(self, rhs: Self) -> Self {
        self.plus(rhs)
    }

    fn sub(self, rhs: Self) -> Self {
        self.minus(rhs)
    }

    fn mul(self, rhs: Self) -> Self {
        self.times(rhs)
    }

    fn div(self, rhs: Self) -> Self {
        self.over(rhs)
    }

    fn neg(self) -> Self {
        self.negated()
    }

    fn abs(self) -> Self {
        self.magnitude()
    }

    fn signum(self) -> Self {
        self.sign()
    }

    fn max(self, rhs: Self) -> Self {
        self.greater_of(rhs)
    }

    fn double(self) -> Self {
        self.doubled()
    }

    fn half(self) -> Self {
        self.halved()
    }

    fn epsilon() -> Self {
        Self::epsilon_value()
    }

    fn lt(self, rhs: Self) -> bool {
        self.precedes(rhs)
    }

    fn eq(self, rhs: Self) -> bool {
        self.equals(rhs)
    }
}

type Complex64 = Complex<Real<f64>>;

fn complex(real: f64, imag: f64) -> Complex64 {
    Complex::new(Real(real), Real(imag))
}

fn roots_of_unity(n: usize) -> Vec<Complex64> {
    (0..n)
        .map(|pow| {
            let angle = ((pow % n) as f64 / n as f64) * core::f64::consts::TAU;
            complex(angle.cos(), -angle.sin())
        })
        .collect()
}

fn scale(n: usize) -> Complex64 {
    complex(1.0 / n as f64, 0.0)
}

fn close(a: &Complex64, b: &Complex64, epsilon: f64) -> bool {
    a.real.0.abs_diff_eq(&b.real.0, epsilon) && a.imag.0.abs_diff_eq(&b.imag.0, epsilon)
}

fn show(a: &Complex64) -> String {
    format!("{} + {} I", a.real.0, a.imag.0)
}

// The data are drawn from a seeded generator, so that every run sees the
// same values.
fn random_data(n: usize, seed: u64) -> Vec<Complex64> {
    let mut rng = StdRng::seed_from_u64(seed);
    (0..n).into_iter().map(|_| -> Complex64 { complex(rng.gen(), 0.0) }).collect::<Vec<_>>()
}

#[test]
fn test_is_power_of_2() {
    assert!(!is_power_of_2(0));
    assert!(!is_power_of_2(1));
    assert!(!is_power_of_2(3));
    assert!(!is_power_of_2(7));

    assert!(is_power_of_2(2));
    assert!(is_power_of_2(4));
    assert!(is_power_of_2(8));
}

#[test]
fn test_naive_fft() {
    let n = 1000;
    let x = random_data(n, 0);
    let roots = roots_of_unity(n);
    let y = <NaiveDFT as DFT<Real<f64>>>::fourier_transform(&x, &roots);
    let z = <NaiveDFT as DFT<Real<f64>>>::inverse_fourier_transform(&y, &roots, scale(n));
    x.into_iter().zip(z.into_iter()).for_each(|(a, b)| {
        assert!(
            close(&a, &b, 2_f64.powi(7) * f64::EPSILON),
            "a = {}, b = {}, diff = {}",
            show(&a),
            show(&b),
            show(&a.sub(b))
        )
    });
}

#[test]
fn test_recursive_bisection_fft_0() {
    let n = 2_usize.pow(16);
    println!("n = {n}");
    let x = random_data(n, 3);
    let roots = roots_of_unity(n);
    let y = <RecursiveBisectionFFT as DFT<Real<f64>>>::fourier_transform(&x, &roots);
    let z =
        <RecursiveBisectionFFT as DFT<Real<f64>>>::inverse_fourier_transform(&y, &roots, scale(n));
    x.into_iter().zip(z.into_iter()).for_each(|(a, b)| {
        assert!(
            close(&a, &b, 2_f64.powi(4) * f64::EPSILON),
            "a = {}, b = {}, diff = {}",
            show(&a),
            show(&b),
            show(&a.sub(b))
        )
    });
}

#[test]
fn test_recursive_bisection_fft_1() {
    let n = 2_usize.pow(11);
    println!("n = {n}");
    let x = random_data(n, 8);
    let roots = roots_of_unity(n);
    let y1 = <NaiveDFT as DFT<Real<f64>>>::fourier_transform(&x, &roots);
    let y2 = <RecursiveBisectionFFT as DFT<Real<f64>>>::fourier_transform(&x, &roots);
    y1.into_iter().zip(y2.into_iter()).for_each(|(a, b)| {
        assert!(
            close(&a, &b, 1e4 * f64::EPSILON),
            "a = {}, b = {}, diff = {}",
            show(&a),
            show(&b),
            show(&a.sub(b))
        )
    });
}

#[test]
fn test_transform_of_four_points() {
    let x = vec![complex(1., 0.), complex(2., 0.), complex(3., 0.), complex(4., 0.)];
    let roots = vec![complex(1., 0.), complex(0., -1.), complex(-1., 0.), complex(0., 1.)];
    let naive = <NaiveDFT as DFT<Real<f64>>>::fourier_transform(&x, &roots);
    let fast = <RecursiveBisectionFFT as DFT<Real<f64>>>::fourier_transform(&x, &roots);
    let expected = vec![complex(10., 0.), complex(-2., 2.), complex(-2., 0.), complex(-2., -2.)];
    assert!(naive == expected);
    assert!(fast == expected);
    let quarter = complex(0.25, 0.);
    let back = <RecursiveBisectionFFT as DFT<Real<f64>>>::inverse_fourier_transform(
        &fast, &roots, quarter,
    );
    assert!(back == x);
    let back = <NaiveDFT as DFT<Real<f64>>>::inverse_fourier_transform(&naive, &roots, quarter);
    assert!(back == x);
}

#[test]
fn test_transform_of_a_single_point() {
    let x = vec![complex(3., -4.)];
    let roots = vec![complex(1., 0.)];
    let half = complex(0.5, 0.);
    assert!(<RecursiveBisectionFFT as DFT<Real<f64>>>::fourier_transform(&x, &roots) == x);
    assert!(
        <RecursiveBisectionFFT as DFT<Real<f64>>>::inverse_fourier_transform(&x, &roots, half) == x
    );
    assert!(<NaiveDFT as DFT<Real<f64>>>::fourier_transform(&x, &roots) == x);
    assert!(
        <NaiveDFT as DFT<Real<f64>>>::inverse_fourier_transform(&x, &roots, half)
            == vec![complex(1.5, -2.)]
    );
}
