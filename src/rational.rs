//! Exact rationals in lowest terms. The arithmetic itself is done by
//! `num_rational`, whose results are always reduced with a positive
//! denominator.
use crate::decode::encode;
use crate::integer::Int;
use num_bigint::BigInt;
use num_rational::BigRational;
use vstd::prelude::*;

verus! {

/// A rational number as a pair (numerator, denominator).
pub type Q = (int, int);

/// Greatest common divisor by Euclid's algorithm; `gcd(a, 0) == a`.
pub open spec fn gcd(a: nat, b: nat) -> nat
    decreases b,
{
    if b == 0 {
        a
    } else {
        gcd(b, a % b)
    }
}

/// Absolute value.
pub open spec fn abs(n: int) -> nat {
    if n < 0 {
        (-n) as nat
    } else {
        n as nat
    }
}

/// `n / d` in lowest terms with a positive denominator (`d` nonzero).
pub open spec fn reduce(n: int, d: int) -> Q {
    let g = gcd(abs(n), abs(d)) as int;
    if d > 0 {
        (n / g, d / g)
    } else {
        ((-n) / g, (-d) / g)
    }
}

/// Exact sum in lowest terms.
pub open spec fn q_add(a: Q, b: Q) -> Q {
    reduce(a.0 * b.1 + b.0 * a.1, a.1 * b.1)
}

/// Exact difference in lowest terms.
pub open spec fn q_sub(a: Q, b: Q) -> Q {
    reduce(a.0 * b.1 - b.0 * a.1, a.1 * b.1)
}

/// Exact product in lowest terms.
pub open spec fn q_mul(a: Q, b: Q) -> Q {
    reduce(a.0 * b.0, a.1 * b.1)
}

/// Exact quotient in lowest terms (`b` nonzero).
pub open spec fn q_div(a: Q, b: Q) -> Q {
    reduce(a.0 * b.1, a.1 * b.0)
}

/// The rational `n / 1`.
pub open spec fn q_int(n: int) -> Q {
    (n, 1)
}

/// An exact rational number.
#[derive(Debug)]
pub struct Rational {
    pub num: Int,
    pub den: Int,
}

impl Rational {
    /// The pair (numerator, denominator) that `self` holds.
    pub open spec fn value(&self) -> Q {
        (self.num.value(), self.den.value())
    }

    /// The denominator is positive.
    pub open spec fn wf(&self) -> bool {
        self.den.value() > 0
    }
}

/// Relies on `Ratio::from_integer`: the integer over one.
#[verifier::external_body]
pub(crate) fn rat_from_int(n: &Int) -> (r: Rational)
    ensures
        r.wf(),
        r.value() == q_int(n.value()),
{
    let q = BigRational::from_integer(BigInt::from_signed_bytes_le(&n.bytes));
    Rational {
        num: Int { bytes: q.numer().to_signed_bytes_le() },
        den: Int { bytes: q.denom().to_signed_bytes_le() },
    }
}

/// Relies on `Ratio + Ratio`: the exact sum, reduced.
#[verifier::external_body]
pub(crate) fn rat_add(a: &Rational, b: &Rational) -> (r: Rational)
    requires
        a.wf(),
        b.wf(),
    ensures
        r.wf(),
        r.value() == q_add(a.value(), b.value()),
{
    let x = BigRational::new_raw(BigInt::from_signed_bytes_le(&a.num.bytes), BigInt::from_signed_bytes_le(&a.den.bytes));
    let y = BigRational::new_raw(BigInt::from_signed_bytes_le(&b.num.bytes), BigInt::from_signed_bytes_le(&b.den.bytes));
    let q = x + y;
    Rational {
        num: Int { bytes: q.numer().to_signed_bytes_le() },
        den: Int { bytes: q.denom().to_signed_bytes_le() },
    }
}

/// Relies on `Ratio - Ratio`: the exact difference, reduced.
#[verifier::external_body]
pub(crate) fn rat_sub(a: &Rational, b: &Rational) -> (r: Rational)
    requires
        a.wf(),
        b.wf(),
    ensures
        r.wf(),
        r.value() == q_sub(a.value(), b.value()),
{
    let x = BigRational::new_raw(BigInt::from_signed_bytes_le(&a.num.bytes), BigInt::from_signed_bytes_le(&a.den.bytes));
    let y = BigRational::new_raw(BigInt::from_signed_bytes_le(&b.num.bytes), BigInt::from_signed_bytes_le(&b.den.bytes));
    let q = x - y;
    Rational {
        num: Int { bytes: q.numer().to_signed_bytes_le() },
        den: Int { bytes: q.denom().to_signed_bytes_le() },
    }
}

/// Relies on `Ratio * Ratio`: the exact product, reduced.
#[verifier::external_body]
pub(crate) fn rat_mul(a: &Rational, b: &Rational) -> (r: Rational)
    requires
        a.wf(),
        b.wf(),
    ensures
        r.wf(),
        r.value() == q_mul(a.value(), b.value()),
{
    let x = BigRational::new_raw(BigInt::from_signed_bytes_le(&a.num.bytes), BigInt::from_signed_bytes_le(&a.den.bytes));
    let y = BigRational::new_raw(BigInt::from_signed_bytes_le(&b.num.bytes), BigInt::from_signed_bytes_le(&b.den.bytes));
    let q = x * y;
    Rational {
        num: Int { bytes: q.numer().to_signed_bytes_le() },
        den: Int { bytes: q.denom().to_signed_bytes_le() },
    }
}

/// Relies on `Ratio / Ratio`: the exact quotient, reduced. It panics on a
/// zero divisor, which `requires` leaves out.
#[verifier::external_body]
pub(crate) fn rat_div(a: &Rational, b: &Rational) -> (r: Rational)
    requires
        a.wf(),
        b.wf(),
        b.value().0 != 0,
    ensures
        r.wf(),
        r.value() == q_div(a.value(), b.value()),
{
    let x = BigRational::new_raw(BigInt::from_signed_bytes_le(&a.num.bytes), BigInt::from_signed_bytes_le(&a.den.bytes));
    let y = BigRational::new_raw(BigInt::from_signed_bytes_le(&b.num.bytes), BigInt::from_signed_bytes_le(&b.den.bytes));
    let q = x / y;
    Rational {
        num: Int { bytes: q.numer().to_signed_bytes_le() },
        den: Int { bytes: q.denom().to_signed_bytes_le() },
    }
}


/// Decimal text of an integer, with a leading `-` when negative.
pub open spec fn int_text(n: int) -> Seq<char> {
    if n < 0 {
        seq!['-'] + encode(abs(n), 10)
    } else {
        encode(n as nat, 10)
    }
}

/// Text of a rational: the numerator alone over a denominator of one, else
/// `numerator/denominator`.
pub open spec fn q_text(q: Q) -> Seq<char> {
    if q.1 == 1 {
        int_text(q.0)
    } else {
        int_text(q.0) + seq!['/'] + int_text(q.1)
    }
}

/// Relies on `Zero::is_zero` of `Ratio`: whether the numerator is zero.
#[verifier::external_body]
pub(crate) fn rat_is_zero(a: &Rational) -> (r: bool)
    requires
        a.wf(),
    ensures
        r == (a.value().0 == 0),
{
    let x = BigRational::new_raw(BigInt::from_signed_bytes_le(&a.num.bytes), BigInt::from_signed_bytes_le(&a.den.bytes));
    num_traits::Zero::is_zero(&x)
}

/// Relies on `Signed::is_negative` of `Ratio`: with a positive denominator,
/// whether the numerator is negative.
#[verifier::external_body]
pub(crate) fn rat_is_negative(a: &Rational) -> (r: bool)
    requires
        a.wf(),
    ensures
        r == (a.value().0 < 0),
{
    let x = BigRational::new_raw(BigInt::from_signed_bytes_le(&a.num.bytes), BigInt::from_signed_bytes_le(&a.den.bytes));
    num_traits::Signed::is_negative(&x)
}

/// Relies on `Signed::abs` of `Ratio`: with a positive denominator, the
/// numerator's absolute value over the same denominator.
#[verifier::external_body]
pub(crate) fn rat_abs(a: &Rational) -> (r: Rational)
    requires
        a.wf(),
    ensures
        r.wf(),
        r.value() == (abs(a.value().0) as int, a.value().1),
{
    let x = BigRational::new_raw(BigInt::from_signed_bytes_le(&a.num.bytes), BigInt::from_signed_bytes_le(&a.den.bytes));
    let q = num_traits::Signed::abs(&x);
    Rational {
        num: Int { bytes: q.numer().to_signed_bytes_le() },
        den: Int { bytes: q.denom().to_signed_bytes_le() },
    }
}

/// Relies on the `Display` impl of `Ratio` (and that of `BigInt` for its
/// parts): decimal numerator, then `/` and the denominator unless it is one.
#[verifier::external_body]
pub(crate) fn rat_text(a: &Rational) -> (r: String)
    requires
        a.wf(),
    ensures
        r@ == q_text(a.value()),
{
    let x = BigRational::new_raw(BigInt::from_signed_bytes_le(&a.num.bytes), BigInt::from_signed_bytes_le(&a.den.bytes));
    format!("{}", x)
}

impl Rational {
    /// The text of the number: the numerator alone when the denominator is
    /// one, else `numerator/denominator`.
    pub fn text(&self) -> (r: String)
        requires
            self.wf(),
        ensures
            r@ == q_text(self.value()),
    {
        rat_text(self)
    }
}

} // verus!
