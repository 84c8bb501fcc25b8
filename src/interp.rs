//! Lagrange interpolation over exact rationals.
use crate::integer::{int_from_i64, int_is_zero, int_sub, Int};
use crate::rational::{
    abs, gcd, reduce, q_add, q_div, q_int, q_mul, q_sub, rat_add, rat_div, rat_from_int, rat_mul, rat_sub, Q,
    Rational,
};
use vstd::prelude::*;

verus! {

/// Why a sample set could not be interpolated.
#[derive(Clone, Copy, Debug, PartialEq, Eq, Structural)]
pub enum InterpError {
    /// There are no samples.
    InsufficientSamples,
    /// Two samples share an abscissa.
    DegenerateSampleSet,
}

/// The integers that a sequence of `Int` stands for.
pub open spec fn int_values(v: Seq<Int>) -> Seq<int> {
    v.map_values(|a: Int| a.value())
}

/// The pairs that a sequence of `Rational` holds.
pub open spec fn rat_values(v: Seq<Rational>) -> Seq<Q> {
    v.map_values(|a: Rational| a.value())
}

/// Every denominator is positive.
pub open spec fn all_wf(v: Seq<Rational>) -> bool {
    forall|k: int| 0 <= k < v.len() ==> (#[trigger] v[k]).wf()
}

/// No two abscissas are equal.
pub open spec fn distinct(xs: Seq<int>) -> bool {
    forall|a: int, b: int| 0 <= a < xs.len() && 0 <= b < xs.len() && a != b ==> xs[a] != xs[b]
}

/// Coefficient `k` of `c`, zero beyond its end.
pub open spec fn coef(c: Seq<Q>, k: int) -> Q {
    if 0 <= k < c.len() {
        c[k]
    } else {
        q_int(0)
    }
}

/// Coefficients of `c(X) * (X - t)`, lowest power first.
pub open spec fn times_linear(c: Seq<Q>, t: int) -> Seq<Q> {
    Seq::new(c.len() + 1, |k: int| q_sub(coef(c, k - 1), q_mul(coef(c, k), q_int(t))))
}

/// Coefficients of `c(X) / d`.
pub open spec fn divided(c: Seq<Q>, d: int) -> Seq<Q> {
    c.map_values(|q: Q| q_div(q, q_int(d)))
}

/// Coefficients of `acc(X) + y * b(X)`, over the length of `acc`.
pub open spec fn add_scaled(acc: Seq<Q>, b: Seq<Q>, y: int) -> Seq<Q> {
    Seq::new(acc.len(), |k: int| q_add(acc[k], q_mul(coef(b, k), q_int(y))))
}

/// The product of `(X - xs[j]) / (xs[i] - xs[j])` over `j < m`, `j != i`.
pub open spec fn basis(xs: Seq<int>, i: int, m: nat) -> Seq<Q>
    decreases m,
{
    if m == 0 {
        seq![q_int(1)]
    } else if m - 1 == i {
        basis(xs, i, (m - 1) as nat)
    } else {
        let j = m - 1;
        divided(times_linear(basis(xs, i, (m - 1) as nat), xs[j]), xs[i] - xs[j])
    }
}

/// The sum of `ys[i]` times the `i`-th basis polynomial over `i < m`, as
/// `xs.len()` coefficients.
pub open spec fn lagrange(xs: Seq<int>, ys: Seq<int>, m: nat) -> Seq<Q>
    decreases m,
{
    if m == 0 {
        Seq::new(xs.len(), |k: int| q_int(0))
    } else {
        let i = m - 1;
        add_scaled(lagrange(xs, ys, (m - 1) as nat), basis(xs, i, xs.len()), ys[i])
    }
}

/// A polynomial by its coefficients, the coefficient of `x^i` at index `i`.
#[derive(Debug)]
pub struct Polynomial {
    pub coefficients: Vec<Rational>,
}

impl Polynomial {
    /// The coefficients as pairs.
    pub open spec fn view(&self) -> Seq<Q> {
        rat_values(self.coefficients@)
    }

    /// Every coefficient has a positive denominator.
    pub open spec fn wf(&self) -> bool {
        all_wf(self.coefficients@)
    }
}

/// Multiplies the polynomial `c` by `X - t`.
fn mul_linear(c: &Vec<Rational>, t: &Rational) -> (r: Vec<Rational>)
    requires
        c.len() < usize::MAX,
        all_wf(c@),
        t.wf(),
        t.value().1 == 1,
    ensures
        r.len() == c.len() + 1,
        all_wf(r@),
        rat_values(r@) == times_linear(rat_values(c@), t.value().0),
{
    let zero = rat_from_int(&int_from_i64(0));
    let m = c.len();
    let mut r: Vec<Rational> = Vec::new();
    let mut k: usize = 0;
    while k <= m
        invariant
            m == c.len(),
            m < usize::MAX,
            k <= m + 1,
            r.len() == k,
            all_wf(c@),
            t.wf(),
            t.value() == q_int(t.value().0),
            zero.wf(),
            zero.value() == q_int(0),
            all_wf(r@),
            forall|i: int|
                0 <= i < k ==> (#[trigger] r@[i]).value() == q_sub(
                    coef(rat_values(c@), i - 1),
                    q_mul(coef(rat_values(c@), i), q_int(t.value().0)),
                ),
        decreases m + 1 - k,
    {
        let hi = if k > 0 {
            &c[k - 1]
        } else {
            &zero
        };
        let lo = if k < m {
            &c[k]
        } else {
            &zero
        };
        let q = rat_sub(hi, &rat_mul(lo, t));
        r.push(q);
        k = k + 1;
    }
    assert(rat_values(r@) =~= times_linear(rat_values(c@), t.value().0));
    r
}

/// Divides every coefficient of `c` by `d`.
fn div_all(c: &Vec<Rational>, d: &Rational) -> (r: Vec<Rational>)
    requires
        all_wf(c@),
        d.wf(),
        d.value().1 == 1,
        d.value().0 != 0,
    ensures
        r.len() == c.len(),
        all_wf(r@),
        rat_values(r@) == divided(rat_values(c@), d.value().0),
{
    let mut r: Vec<Rational> = Vec::new();
    let mut k: usize = 0;
    while k < c.len()
        invariant
            k <= c.len(),
            r.len() == k,
            all_wf(c@),
            d.wf(),
            d.value() == q_int(d.value().0),
            d.value().0 != 0,
            all_wf(r@),
            forall|i: int|
                0 <= i < k ==> (#[trigger] r@[i]).value() == q_div(c@[i].value(), d.value()),
        decreases c.len() - k,
    {
        r.push(rat_div(&c[k], d));
        k = k + 1;
    }
    assert(rat_values(r@) =~= divided(rat_values(c@), d.value().0));
    r
}

/// Adds `y` times the polynomial `b` to `acc`, over the length of `acc`.
fn add_scaled_into(acc: &Vec<Rational>, b: &Vec<Rational>, y: &Rational) -> (r: Vec<Rational>)
    requires
        all_wf(acc@),
        all_wf(b@),
        y.wf(),
        y.value().1 == 1,
    ensures
        r.len() == acc.len(),
        all_wf(r@),
        rat_values(r@) == add_scaled(rat_values(acc@), rat_values(b@), y.value().0),
{
    let zero = rat_from_int(&int_from_i64(0));
    let mut r: Vec<Rational> = Vec::new();
    let mut k: usize = 0;
    while k < acc.len()
        invariant
            k <= acc.len(),
            r.len() == k,
            all_wf(acc@),
            all_wf(b@),
            y.wf(),
            y.value() == q_int(y.value().0),
            zero.wf(),
            zero.value() == q_int(0),
            all_wf(r@),
            forall|i: int|
                0 <= i < k ==> (#[trigger] r@[i]).value() == q_add(
                    acc@[i].value(),
                    q_mul(coef(rat_values(b@), i), q_int(y.value().0)),
                ),
        decreases acc.len() - k,
    {
        let bk = if k < b.len() {
            &b[k]
        } else {
            &zero
        };
        r.push(rat_add(&acc[k], &rat_mul(bk, y)));
        k = k + 1;
    }
    assert(rat_values(r@) =~= add_scaled(rat_values(acc@), rat_values(b@), y.value().0));
    r
}

proof fn lemma_reduce_over_one(n: int)
    ensures
        reduce(n, 1) == q_int(n),
{
    assert(gcd(abs(n), 1) == 1) by {
        assert(abs(n) % 1 == 0);
        assert(gcd(1, 0) == 1);
    }
    assert(abs(1) == 1);
    assert(n / 1 == n);
    assert(1int / 1 == 1);
}

/// With one sample the result is the constant polynomial of its ordinate.
proof fn lemma_single_sample(xs: Seq<int>, ys: Seq<int>)
    requires
        xs.len() == 1,
        ys.len() == 1,
    ensures
        lagrange(xs, ys, 1) == seq![q_int(ys[0])],
{
    let z = lagrange(xs, ys, 0);
    assert(z =~= seq![q_int(0)]);
    let b = basis(xs, 0, 1);
    assert(b == basis(xs, 0, 0));
    lemma_reduce_over_one(ys[0]);
    assert(q_mul(coef(b, 0), q_int(ys[0])) == q_int(ys[0]));
    assert(q_add(z[0], q_int(ys[0])) == q_int(ys[0])) by {
        assert(z[0].0 * 1 + ys[0] * z[0].1 == ys[0]);
        lemma_reduce_over_one(ys[0]);
    }
    assert(lagrange(xs, ys, 1) =~= seq![q_int(ys[0])]);
}

/// The polynomial of degree below `n` through the `n` samples
/// `(x_values[i], y_values[i])`: the sum over `i` of `y_values[i]` times the
/// product of `(X - x_j) / (x_i - x_j)` over `j != i`.
pub fn lagrange_interpolation(x_values: &Vec<Int>, y_values: &Vec<Int>) -> (r: Result<
    Polynomial,
    InterpError,
>)
    requires
        x_values.len() == y_values.len(),
    ensures
        x_values.len() == 0 ==> r == Err::<Polynomial, InterpError>(
            InterpError::InsufficientSamples,
        ),
        x_values.len() > 0 && !distinct(int_values(x_values@)) ==> r == Err::<
            Polynomial,
            InterpError,
        >(InterpError::DegenerateSampleSet),
        x_values.len() > 0 && distinct(int_values(x_values@)) ==> r is Ok,
        r is Ok ==> r->Ok_0.wf() && r->Ok_0.view().len() == x_values.len() && r->Ok_0.view()
            == lagrange(int_values(x_values@), int_values(y_values@), x_values.len() as nat),
        r is Ok && x_values.len() == 1 ==> r->Ok_0.view() == seq![
            q_int(y_values@[0].value()),
        ],
{
    let n = x_values.len();
    if n == 0 {
        return Err(InterpError::InsufficientSamples);
    }
    let ghost xs = int_values(x_values@);
    let ghost ys = int_values(y_values@);
    let mut coefficients: Vec<Rational> = Vec::new();
    let mut k: usize = 0;
    while k < n
        invariant
            k <= n,
            coefficients.len() == k,
            all_wf(coefficients@),
            forall|i: int| 0 <= i < k ==> (#[trigger] coefficients@[i]).value() == q_int(0),
        decreases n - k,
    {
        coefficients.push(rat_from_int(&int_from_i64(0)));
        k = k + 1;
    }
    assert(rat_values(coefficients@) =~= lagrange(xs, ys, 0));
    let mut i: usize = 0;
    while i < n
        invariant
            n == x_values.len(),
            n == y_values.len(),
            xs == int_values(x_values@),
            ys == int_values(y_values@),
            i <= n,
            coefficients.len() == n,
            all_wf(coefficients@),
            rat_values(coefficients@) == lagrange(xs, ys, i as nat),
            forall|a: int, b: int| 0 <= a < i && 0 <= b < n && a != b ==> xs[a] != xs[b],
        decreases n - i,
    {
        let mut term: Vec<Rational> = Vec::new();
        term.push(rat_from_int(&int_from_i64(1)));
        let mut j: usize = 0;
        while j < n
            invariant
                n == x_values.len(),
                n == y_values.len(),
                xs == int_values(x_values@),
                i < n,
                j <= n,
                term.len() == if j <= i {
                    j + 1
                } else {
                    j as int
                },
                all_wf(term@),
                rat_values(term@) == basis(xs, i as int, j as nat),
                forall|b: int| 0 <= b < j && b != i ==> xs[i as int] != xs[b],
            decreases n - j,
        {
            if j != i {
                let denom = int_sub(&x_values[i], &x_values[j]);
                if int_is_zero(&denom) {
                    assert(xs[i as int] == xs[j as int]);
                    return Err(InterpError::DegenerateSampleSet);
                }
                let xj = rat_from_int(&x_values[j]);
                let d = rat_from_int(&denom);
                term = div_all(&mul_linear(&term, &xj), &d);
            }
            j = j + 1;
        }
        assert(basis(xs, i as int, j as nat) == basis(xs, i as int, xs.len()));
        let yi = rat_from_int(&y_values[i]);
        coefficients = add_scaled_into(&coefficients, &term, &yi);
        proof {
            assert forall|a: int, b: int| 0 <= a < i + 1 && 0 <= b < n && a != b implies xs[a]
                != xs[b] by {
                if a == i {
                    assert(xs[i as int] != xs[b]);
                }
            }
        }
        i = i + 1;
    }
    proof {
        if n == 1 {
            lemma_single_sample(xs, ys);
        }
    }
    Ok(Polynomial { coefficients })
}

} // verus!
