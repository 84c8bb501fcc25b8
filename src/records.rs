//! Sample records as read from a document: an abscissa in decimal, a radix
//! and a digit string, before any decoding.
use crate::decode::{all_digits, decode_value, digit_of, digits_value, DecodeError};
use crate::integer::Int;
use num_bigint::BigInt;
use vstd::prelude::*;

verus! {

/// The error of `u32::from_str_radix`, carried through unopened.
#[verifier::external_type_specification]
#[verifier::external_body]
pub struct ExParseIntError(std::num::ParseIntError);

/// The text after the one leading `+` that an unsigned parse accepts.
pub open spec fn without_plus(s: Seq<char>) -> Seq<char> {
    if s.len() > 0 && s[0] == '+' {
        s.drop_first()
    } else {
        s
    }
}

/// Whether `s` is an unsigned number in radix `base` that fits in 32 bits.
pub open spec fn parses_u32(s: Seq<char>, base: nat) -> bool {
    let t = without_plus(s);
    t.len() > 0 && all_digits(t, base) && digits_value(t, base) <= u32::MAX
}

/// Relies on `u32::from_str_radix`: an optional `+` and then only digits of
/// the radix, with the value in range. It panics on a radix outside 2 to 36,
/// which `requires` leaves out.
#[verifier::external_body]
fn u32_from_str_radix(s: &str, base: u32) -> (r: Result<u32, std::num::ParseIntError>)
    requires
        2 <= base <= 36,
    ensures
        r is Ok <==> parses_u32(s@, base as nat),
        r is Ok ==> r->Ok_0 == digits_value(without_plus(s@), base as nat),
{
    u32::from_str_radix(s, base)
}

/// Reads `encoded_value` as an unsigned 32-bit number in radix `base`.
pub fn decode_y_value(encoded_value: &str, base: u32) -> (r: Result<u32, std::num::ParseIntError>)
    requires
        2 <= base <= 36,
    ensures
        r is Ok <==> parses_u32(encoded_value@, base as nat),
        r is Ok ==> r->Ok_0 == digits_value(without_plus(encoded_value@), base as nat),
{
    u32_from_str_radix(encoded_value, base)
}

/// Sign handling of `BigInt::from_str`: a leading `-` not followed by `+` is
/// taken off and makes the number negative.
pub open spec fn split_sign(s: Seq<char>) -> (bool, Seq<char>) {
    if s.len() > 0 && s[0] == '-' && !(s.len() > 1 && s[1] == '+') {
        (true, s.drop_first())
    } else {
        (false, s)
    }
}

/// A leading `+` not followed by another `+` is taken off.
pub open spec fn skip_plus(s: Seq<char>) -> Seq<char> {
    if s.len() > 0 && s[0] == '+' && !(s.len() > 1 && s[1] == '+') {
        s.drop_first()
    } else {
        s
    }
}

/// Whether `BigInt::from_str` accepts `s`: after the sign, a nonempty run of
/// decimal digits and underscores that does not start with an underscore.
pub open spec fn decimal_ok(s: Seq<char>) -> bool {
    let t = skip_plus(split_sign(s).1);
    t.len() > 0 && t[0] != '_' && forall|i: int|
        0 <= i < t.len() ==> t[i] == '_' || #[trigger] digit_of(t[i]) < 10
}

/// The value that `BigInt::from_str` reads from an accepted `s`; underscores
/// are skipped.
pub open spec fn decimal_value(s: Seq<char>) -> int {
    let t = skip_plus(split_sign(s).1).filter(|c: char| c != '_');
    if split_sign(s).0 {
        -digits_value(t, 10)
    } else {
        digits_value(t, 10) as int
    }
}

/// Relies on `BigInt::from_str` (radix ten), with the error turned into
/// `None`.
#[verifier::external_body]
fn parse_decimal(s: &str) -> (r: Option<Int>)
    ensures
        r is Some <==> decimal_ok(s@),
        r is Some ==> r->Some_0.value() == decimal_value(s@),
{
    match <BigInt as std::str::FromStr>::from_str(s) {
        Ok(v) => Some(Int { bytes: v.to_signed_bytes_le() }),
        Err(_) => None,
    }
}

/// One sample as text: abscissa, radix and digit string.
#[derive(Debug)]
pub struct SampleRecord {
    pub x: String,
    pub base: String,
    pub value: String,
}

impl SampleRecord {
    /// The three texts of the record.
    pub open spec fn view(&self) -> (Seq<char>, Seq<char>, Seq<char>) {
        (self.x@, self.base@, self.value@)
    }
}

/// The texts of each record in order.
pub open spec fn rows(s: Seq<SampleRecord>) -> Seq<(Seq<char>, Seq<char>, Seq<char>)> {
    s.map_values(|r: SampleRecord| r.view())
}

/// Sample records keyed by their abscissa text, in order of first insertion.
#[derive(Debug)]
pub struct RecordTable {
    pub entries: Vec<SampleRecord>,
}

impl RecordTable {
    /// No two records share an abscissa text.
    pub open spec fn wf(&self) -> bool {
        forall|i: int, j: int|
            0 <= i < j < self.entries.len() ==> self.entries@[i].x@ != self.entries@[j].x@
    }

    /// An empty table.
    pub fn new() -> (r: RecordTable)
        ensures
            r.wf(),
            r.entries@.len() == 0,
    {
        RecordTable { entries: Vec::new() }
    }
}

/// Records `(x, base, value)`, replacing the record of the same abscissa text
/// if there is one, else adding it at the end.
pub fn insert_entry(arr: &mut RecordTable, x: &str, base: &str, value: &str)
    requires
        old(arr).wf(),
    ensures
        final(arr).wf(),
        forall|p: int|
            0 <= p < old(arr).entries.len() && old(arr).entries@[p].x@ == x@ ==> rows(
                final(arr).entries@,
            ) == rows(old(arr).entries@).update(p, (x@, base@, value@)),
        (forall|p: int| 0 <= p < old(arr).entries.len() ==> old(arr).entries@[p].x@ != x@)
            ==> rows(final(arr).entries@) == rows(old(arr).entries@).push((x@, base@, value@)),
{
    let rec = SampleRecord { x: x.to_owned(), base: base.to_owned(), value: value.to_owned() };
    let ghost before = arr.entries@;
    let n = arr.entries.len();
    let mut i: usize = 0;
    while i < n
        invariant
            n == arr.entries.len(),
            arr.entries@ == before,
            before == old(arr).entries@,
            arr.wf(),
            i <= n,
            rec.view() == (x@, base@, value@),
            forall|p: int| 0 <= p < i ==> arr.entries@[p].x@ != x@,
        decreases n - i,
    {
        if arr.entries[i].x == rec.x {
            proof {
                assert(before[i as int].x@ == x@);
                assert(old(arr).entries@[i as int].x@ == x@);
                assert forall|p: int|
                    0 <= p < before.len() && before[p].x@ == x@ implies p == i by {
                    if p < i {
                        assert(before[p].x@ != before[i as int].x@);
                    } else if p > i {
                        assert(before[i as int].x@ != before[p].x@);
                    }
                }
            }
            arr.entries.remove(i);
            arr.entries.insert(i, rec);
            assert(rows(arr.entries@) =~= rows(before).update(i as int, (x@, base@, value@)));
            proof {
                assert forall|a: int, b: int|
                    0 <= a < b < arr.entries.len() implies arr.entries@[a].x@
                    != arr.entries@[b].x@ by {
                    assert(rows(arr.entries@)[a].0 == arr.entries@[a].x@);
                    assert(rows(arr.entries@)[b].0 == arr.entries@[b].x@);
                    assert(rows(before)[a].0 == before[a].x@);
                    assert(rows(before)[b].0 == before[b].x@);
                }
            }
            return;
        }
        i = i + 1;
    }
    arr.entries.push(rec);
    assert(rows(arr.entries@) =~= rows(before).push((x@, base@, value@)));
    assert forall|a: int, b: int|
        0 <= a < b < arr.entries.len() implies arr.entries@[a].x@ != arr.entries@[b].x@ by {
        if b == n {
            assert(arr.entries@[a].x@ == before[a].x@);
        }
    }
}

/// Why the records could not be turned into sample points.
#[derive(Clone, Copy, Debug, PartialEq, Eq, Structural)]
pub enum ReadError {
    /// An abscissa is no decimal integer.
    BadAbscissa,
    /// A radix is no unsigned decimal number.
    BadRadix,
    /// A digit string could not be decoded.
    Decode(DecodeError),
}

/// Whether record `r` reads as a sample point.
pub open spec fn record_ok(r: (Seq<char>, Seq<char>, Seq<char>)) -> bool {
    parses_u32(r.1, 10) && decimal_ok(r.0) && radix_of(r) >= 2 && radix_of(r) <= 36
        && all_digits(r.2, radix_of(r))
}

/// The radix that record `r` names.
pub open spec fn radix_of(r: (Seq<char>, Seq<char>, Seq<char>)) -> nat {
    digits_value(without_plus(r.1), 10)
}

/// Parses every record into an abscissa and a decoded ordinate, in the order
/// of the table.
pub fn read_values_from_map(map: &RecordTable) -> (r: Result<(Vec<Int>, Vec<Int>), ReadError>)
    ensures
        r is Ok <==> forall|i: int|
            0 <= i < map.entries.len() ==> #[trigger] record_ok(map.entries@[i].view()),
        r is Ok ==> {
            let (xs, ys) = r->Ok_0;
            &&& xs.len() == map.entries.len()
            &&& ys.len() == map.entries.len()
            &&& forall|i: int|
                0 <= i < xs.len() ==> #[trigger] xs@[i].value() == decimal_value(
                    map.entries@[i].x@,
                ) && ys@[i].value() == digits_value(
                    map.entries@[i].value@,
                    radix_of(map.entries@[i].view()),
                )
        },
{
    let mut x_values: Vec<Int> = Vec::new();
    let mut y_values: Vec<Int> = Vec::new();
    let mut i: usize = 0;
    while i < map.entries.len()
        invariant
            i <= map.entries.len(),
            x_values.len() == i,
            y_values.len() == i,
            forall|k: int| 0 <= k < i ==> record_ok(#[trigger] map.entries@[k].view()),
            forall|k: int|
                0 <= k < i ==> x_values@[k].value() == decimal_value(
                    #[trigger] map.entries@[k].x@,
                ) && y_values@[k].value() == digits_value(
                    map.entries@[k].value@,
                    radix_of(map.entries@[k].view()),
                ),
            forall|k: int|
                0 <= k < i ==> #[trigger] x_values@[k].value() == decimal_value(
                    map.entries@[k].x@,
                ) && y_values@[k].value() == digits_value(
                    map.entries@[k].value@,
                    radix_of(map.entries@[k].view()),
                ),
        decreases map.entries.len() - i,
    {
        let data = &map.entries[i];
        let base = match u32_from_str_radix(data.base.as_str(), 10) {
            Ok(b) => b,
            Err(_) => {
                assert(!record_ok(map.entries@[i as int].view()));
                return Err(ReadError::BadRadix);
            },
        };
        let y = match decode_value(data.value.as_str(), base) {
            Ok(v) => v,
            Err(e) => {
                assert(!record_ok(map.entries@[i as int].view()));
                return Err(ReadError::Decode(e));
            },
        };
        let x = match parse_decimal(data.x.as_str()) {
            Some(v) => v,
            None => {
                assert(!record_ok(map.entries@[i as int].view()));
                return Err(ReadError::BadAbscissa);
            },
        };
        x_values.push(x);
        y_values.push(y);
        i = i + 1;
    }
    Ok((x_values, y_values))
}

} // verus!
