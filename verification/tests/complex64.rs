use approx::AbsDiffEq;
use core_float::CoreFloat;
use numerical::base_float::BaseFloat;
use numerical::complex::Complex;

trait Native: CoreFloat {
    fn native_abs(self) -> Self;
    fn native_signum(self) -> Self;
}

impl Native for f64 {
    fn native_abs(self) -> Self {
        f64::abs(self)
    }

    fn native_signum(self) -> Self {
        f64::signum(self)
    }
}

#[derive(Clone, Copy, Debug, PartialEq, PartialOrd)]
struct Real<F>(F);

impl<F: Native> BaseFloat for Real<F> {
    fn zero_value() -> Self {
        Real(F::ZERO)
    }

    fn one_value() -> Self {
        Real(F::ONE)
    }

    fn plus(self, rhs: Self) -> Self {
        Real(self.0 + rhs.0)
    }

    fn minus(self, rhs: Self) -> Self {
        Real(self.0 - rhs.0)
    }

    fn times(self, rhs: Self) -> Self {
        Real(self.0 * rhs.0)
    }

    fn over(self, rhs: Self) -> Self {
        Real(self.0 / rhs.0)
    }

    fn negated(self) -> Self {
        Real(-self.0)
    }

    fn magnitude(self) -> Self {
        Real(self.0.native_abs())
    }

    fn sign(self) -> Self {
        Real(self.0.native_signum())
    }

    fn greater_of(self, rhs: Self) -> Self {
        Real(CoreFloat::max(self.0, rhs.0))
    }

    fn doubled(self) -> Self {
        Real(self.0.double())
    }

    fn halved(self) -> Self {
        Real(self.0.half())
    }

    fn epsilon_value() -> Self {
        Real(F::EPSILON)
    }

    fn precedes(self, rhs: Self) -> bool {
        self.0 < rhs.0
    }

    fn equals(self, rhs: Self) -> bool {
        self.0 == rhs.0
    }

    fn zero() -> Self {
        Self::zero_value()
    }

    fn one() -> Self {
        Self::one_value()
    }

    fn add(self, rhs: Self) -> Self {
        self.plus(rhs)
    }

    fn sub(self, rhs: Self) -> Self {
        self.minus(rhs)
    }

    fn mul(self, rhs: Self) -> Self {
        self.times(rhs)
    }

    fn div(self, rhs: Self) -> Self {
        self.over(rhs)
    }

    fn neg(self) -> Self {
        self.negated()
    }

    fn abs(self) -> Self {
        self.magnitude()
    }

    fn signum(self) -> Self {
        self.sign()
    }

    fn max(self, rhs: Self) -> Self {
        self.greater_of(rhs)
    }

    fn double(self) -> Self {
        self.doubled()
    }

    fn half(self) -> Self {
        self.halved()
    }

    fn epsilon() -> Self {
        Self::epsilon_value()
    }

    fn lt(self, rhs: Self) -> bool {
        self.precedes(rhs)
    }

    fn eq(self, rhs: Self) -> bool {
        self.equals(rhs)
    }
}

type Complex64 = Complex<Real<f64>>;

fn complex(real: f64, imag: f64) -> Complex64 {
    Complex::new(Real(real), Real(imag))
}

fn close(a: &Complex64, b: &Complex64, epsilon: f64) -> bool {
    a.real.0.abs_diff_eq(&b.real.0, epsilon) && a.imag.0.abs_diff_eq(&b.imag.0, epsilon)
}

fn show(a: &Complex64) -> String {
    format!("{} + {} I", a.real.0, a.imag.0)
}

#[test]
fn test_consts() {
    assert_eq!(Complex64::zero(), complex(0., 0.));
    assert_eq!(Complex64::one(), complex(1., 0.));
    assert_eq!(Complex64::i(), complex(0., 1.));
}

#[test]
fn test_conjugate() {
    assert_eq!(complex(0.1, 0.2).conjugate(), complex(0.1, -0.2));
    let a = complex(0.1, 0.2);
    assert_eq!(a.conjugate().conjugate(), a);
}

#[test]
fn complex64_test_add() {
    let mut a = complex(0.1, 0.2);
    let b = complex(0.3, 0.4);
    let c = complex(0.4, 0.6);
    assert!(
        close(&a.add(b), &c, f64::EPSILON),
        "a + b = {}, c = {}",
        show(&a.add(b)),
        show(&c)
    );
    a = a.add(b);
    assert!(close(&a, &c, f64::EPSILON));
}

#[test]
fn complex64_test_sub() {
    let mut a = complex(0.1, 0.2);
    let b = complex(0.3, 0.4);
    let c = complex(-0.2, -0.2);
    assert!(close(&a.sub(b), &c, f64::EPSILON));
    a = a.sub(b);
    assert!(close(&a, &c, f64::EPSILON));

    let d = b.add(c);
    let f = d.sub(c);
    assert!(close(&b, &f, f64::EPSILON));
}

#[test]
fn complex64_test_mul() {
    let mut a = complex(0.1, 0.2);
    let b = complex(0.3, 0.4);
    let c = complex(-0.05, 0.1);
    assert!(close(&a.mul(b), &c, f64::EPSILON));
    a = a.mul(b);
    assert!(close(&a, &c, f64::EPSILON));
}

#[test]
fn complex64_test_div() {
    let mut a = complex(0.1, 0.2);
    let b = complex(0.3, 0.4);
    let c = complex(0.44, 0.08);
    assert!(close(&a.div(b), &c, f64::EPSILON));
    a = a.div(b);
    assert!(close(&a, &c, f64::EPSILON), "a = {}, c = {}", show(&a), show(&c));

    let d = b.div(c);
    let f = d.mul(c);
    assert!(close(&b, &f, f64::EPSILON));
}

#[test]
fn complex64_test_neg() {
    assert_eq!(complex(0.3, -0.4).neg(), complex(-0.3, 0.4));

    let a = complex(0.3, -0.4);
    assert_eq!(a.neg().neg(), a);
}

#[test]
fn test_exact_products_and_quotients() {
    assert_eq!(complex(1., 2.).mul(complex(3., 4.)), complex(-5., 10.));
    assert_eq!(complex(-5., 10.).div(complex(3., 4.)), complex(1., 2.));
    assert_eq!(Complex64::i().mul(Complex64::i()), complex(-1., 0.));
}
