//! Text of a polynomial, highest power first.
use crate::decode::encode;
use crate::interp::Polynomial;
use crate::rational::{abs, q_text, rat_abs, rat_is_negative, rat_is_zero, rat_text, Q};
use vstd::prelude::*;

verus! {

/// Sign glyph before a term: ` - ` for a negative coefficient, ` + ` for a
/// positive one after the first printed term, nothing before the first.
pub open spec fn sign_text(q: Q, first: bool) -> Seq<char> {
    if q.0 < 0 {
        seq![' ', '-', ' ']
    } else if !first {
        seq![' ', '+', ' ']
    } else {
        seq![]
    }
}

/// Variable part of the term of power `i`: none, `x`, or `x^i`.
pub open spec fn power_text(i: nat) -> Seq<char> {
    if i == 0 {
        seq![]
    } else if i == 1 {
        seq!['x']
    } else {
        seq!['x', '^'] + encode(i, 10)
    }
}

/// Text of the nonzero coefficient `q` of power `i`.
pub open spec fn term_text(q: Q, i: nat, first: bool) -> Seq<char> {
    sign_text(q, first) + q_text((abs(q.0) as int, q.1)) + power_text(i)
}

/// Text of the terms of `c` of power `m` and above, highest first, zero
/// coefficients left out.
pub open spec fn rendered(c: Seq<Q>, m: nat) -> Seq<char>
    decreases c.len() - m,
{
    if m >= c.len() {
        seq![]
    } else {
        let e = rendered(c, m + 1);
        if c[m as int].0 == 0 {
            e
        } else {
            e + term_text(c[m as int], m, e.len() == 0)
        }
    }
}

/// Relies on `String::push_str`: appends `t`.
#[verifier::external_body]
fn push_text(s: &mut String, t: &str)
    ensures
        final(s)@ == old(s)@ + t@,
{
    s.push_str(t)
}

/// Relies on the `Display` impl of `usize`: its decimal digits.
#[verifier::external_body]
fn usize_text(n: usize) -> (r: String)
    ensures
        r@ == encode(n as nat, 10),
{
    format!("{}", n)
}

impl Polynomial {
    /// The equation text, e.g. `x^2 + 2x + 1`: terms from the highest power
    /// down, zero coefficients left out, each sign shown as ` - ` or ` + `
    /// before the absolute value (no ` + ` before the first term).
    pub fn equation(&self) -> (r: String)
        requires
            self.wf(),
        ensures
            r@ == rendered(self@, 0),
    {
        let c = &self.coefficients;
        let mut eq = String::new();
        let mut empty = true;
        let mut m: usize = c.len();
        while m > 0
            invariant
                m <= c.len(),
                c == self.coefficients,
                self.wf(),
                eq@ == rendered(self@, m as nat),
                empty == (eq@.len() == 0),
            decreases m,
        {
            let i = m - 1;
            let q = &c[i];
            assert(self.coefficients@[i as int].wf());
            if !rat_is_zero(q) {
                proof {
                    reveal_strlit(" - ");
                    reveal_strlit(" + ");
                    reveal_strlit("");
                    reveal_strlit("x");
                    reveal_strlit("^");
                }
                if rat_is_negative(q) {
                    push_text(&mut eq, " - ");
                } else if !empty {
                    push_text(&mut eq, " + ");
                }
                let t = rat_text(&rat_abs(q));
                push_text(&mut eq, t.as_str());
                if i > 0 {
                    push_text(&mut eq, "x");
                    if i > 1 {
                        push_text(&mut eq, "^");
                        let p = usize_text(i);
                        push_text(&mut eq, p.as_str());
                    }
                }
                empty = false;
            }
            m = i;
        }
        eq
    }
}

} // verus!
