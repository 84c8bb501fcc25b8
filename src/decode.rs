//! Decoding digit strings of radix 2 to 36 into exact integers.
use crate::integer::{int_add, int_from_i64, int_mul, Int};
use vstd::arithmetic::div_mod::{lemma_div_decreases, lemma_fundamental_div_mod, lemma_mod_bound};
use vstd::prelude::*;
use vstd::string::StrSliceExecFns;

verus! {

/// Why a digit string could not be decoded.
#[derive(Clone, Copy, Debug, PartialEq, Eq, Structural)]
pub enum DecodeError {
    /// The radix lies outside 2 to 36.
    InvalidRadix,
    /// A character is no digit of the radix.
    InvalidDigit,
}

/// Whether `base` is a supported radix.
pub open spec fn radix_ok(base: nat) -> bool {
    2 <= base <= 36
}

/// Value of a digit character: `0`-`9`, then `a`-`z` or `A`-`Z` for 10 to 35;
/// 36 for any other character.
pub open spec fn digit_of(c: char) -> nat {
    if '0' <= c && c <= '9' {
        (c as u32 - '0' as u32) as nat
    } else if 'a' <= c && c <= 'z' {
        (c as u32 - 'a' as u32 + 10) as nat
    } else if 'A' <= c && c <= 'Z' {
        (c as u32 - 'A' as u32 + 10) as nat
    } else {
        36
    }
}

/// Whether every character of `s` is a digit of radix `base`.
pub open spec fn all_digits(s: Seq<char>, base: nat) -> bool {
    forall|i: int| 0 <= i < s.len() ==> #[trigger] digit_of(s[i]) < base
}

/// Positional value of `s` in radix `base`, most significant digit first.
pub open spec fn digits_value(s: Seq<char>, base: nat) -> nat
    decreases s.len(),
{
    if s.len() == 0 {
        0
    } else {
        digits_value(s.drop_last(), base) * base + digit_of(s.last())
    }
}

/// Lower-case digit character for `d` below 36.
pub open spec fn digit_char(d: nat) -> char {
    if d < 10 {
        (('0' as u32) + d) as char
    } else {
        (('a' as u32) + d - 10) as char
    }
}

/// Digits of `v` in radix `base`, most significant first, without leading
/// zeros (zero itself is one digit).
pub open spec fn encode(v: nat, base: nat) -> Seq<char>
    recommends
        radix_ok(base),
    decreases v,
    via encode_decreases
{
    if base < 2 || v < base {
        seq![digit_char(v)]
    } else {
        encode(v / base, base).push(digit_char(v % base))
    }
}

#[via_fn]
proof fn encode_decreases(v: nat, base: nat) {
    if !(base < 2 || v < base) {
        lemma_div_decreases(v as int, base as int);
    }
}

proof fn lemma_digit_char(d: nat)
    requires
        d < 36,
    ensures
        digit_of(digit_char(d)) == d,
{
}

/// Decoding the digits of any `v` in any supported radix gives `v` back, and
/// each of those digits is valid in that radix.
pub proof fn lemma_decode_encode(v: nat, base: nat)
    requires
        radix_ok(base),
    ensures
        all_digits(encode(v, base), base),
        digits_value(encode(v, base), base) == v,
    decreases v,
{
    let s = encode(v, base);
    if v < base {
        lemma_digit_char(v);
        assert(s.drop_last() =~= Seq::<char>::empty());
        assert(digits_value(s.drop_last(), base) == 0);
        assert(s.last() == digit_char(v));
        assert(digits_value(s, base) == digits_value(s.drop_last(), base) * base + digit_of(s.last()));
    } else {
        lemma_div_decreases(v as int, base as int);
        lemma_fundamental_div_mod(v as int, base as int);
        lemma_mod_bound(v as int, base as int);
        lemma_decode_encode(v / base, base);
        lemma_digit_char(v % base);
        let t = encode(v / base, base);
        assert(s.drop_last() =~= t);
        assert(s.last() == digit_char(v % base));
        assert((v / base) * base + v % base == v) by (nonlinear_arith)
            requires
                v == base * (v / base) + (v % base),
        ;
        assert(digits_value(s, base) == digits_value(t, base) * base + digit_of(s.last()));
        assert forall|i: int| 0 <= i < s.len() implies #[trigger] digit_of(s[i]) < base by {
            if i < t.len() {
                assert(s[i] == t[i]);
            }
        }
    }
}

/// Value of a character in a radix up to 36, or 36 where it is no digit.
pub fn digit_value(c: char) -> (d: u32)
    ensures
        d == digit_of(c),
{
    if '0' <= c && c <= '9' {
        c as u32 - '0' as u32
    } else if 'a' <= c && c <= 'z' {
        c as u32 - 'a' as u32 + 10
    } else if 'A' <= c && c <= 'Z' {
        c as u32 - 'A' as u32 + 10
    } else {
        36
    }
}

/// Decodes `s` as a number in radix `base`. The empty string
/// stands for zero.
pub fn decode_value(s: &str, base: u32) -> (r: Result<Int, DecodeError>)
    ensures
        !radix_ok(base as nat) ==> r == Err::<Int, DecodeError>(DecodeError::InvalidRadix),
        radix_ok(base as nat) && !all_digits(s@, base as nat) ==> r == Err::<
            Int,
            DecodeError,
        >(DecodeError::InvalidDigit),
        radix_ok(base as nat) && all_digits(s@, base as nat) ==> r is Ok
            && r->Ok_0.value() == digits_value(s@, base as nat),
{
    if base < 2 || base > 36 {
        return Err(DecodeError::InvalidRadix);
    }
    let n = s.unicode_len();
    let radix = int_from_i64(base as i64);
    let mut value = int_from_i64(0);
    let mut i: usize = 0;
    while i < n
        invariant
            n == s@.len(),
            i <= n,
            radix.value() == base,
            2 <= base <= 36,
            all_digits(s@.subrange(0, i as int), base as nat),
            value.value() == digits_value(s@.subrange(0, i as int), base as nat),
        decreases n - i,
    {
        let c = s.get_char(i);
        let d = digit_value(c);
        if d >= base {
            assert(digit_of(s@[i as int]) >= base);
            assert(!all_digits(s@, base as nat)) by {
                if all_digits(s@, base as nat) {
                    assert(digit_of(s@[i as int]) < base as nat);
                }
            }
            return Err(DecodeError::InvalidDigit);
        }
        let scaled = int_mul(&value, &radix);
        value = int_add(&scaled, &int_from_i64(d as i64));
        proof {
            let next = s@.subrange(0, i + 1);
            assert(next.drop_last() =~= s@.subrange(0, i as int));
            assert(next.last() == c);
        }
        i = i + 1;
    }
    assert(s@.subrange(0, n as int) =~= s@);
    Ok(value)
}

} // verus!
