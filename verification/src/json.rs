//! Codec for the provisioning wire format: one flat JSON object with
//! string keys and scalar values, as the queue carries it.
//!
//! The format is deliberately narrow. Values are strings (without
//! escape sequences), decimal numbers, `true`, `false` and `null`;
//! nothing nests. A number is taken to its nearest integer, ties away
//! from zero, and is rejected when that integer does not fit a signed
//! 64-bit value. Anything outside the format fails to parse, and a
//! message that fails to parse is dropped by the consumers.
//!
//! The specification functions below are the grammar; each executable
//! function returns exactly what its specification function denotes.
use vstd::prelude::*;

verus! {

/// A scalar value of the wire format.
#[derive(Clone, Debug)]
pub enum JsonScalar {
    /// A string value, the bytes between its quotes.
    Text(Vec<u8>),
    /// A number, rounded to the nearest integer (ties away from zero);
    /// `integral` records whether the written number was a whole one.
    Num { value: i64, integral: bool },
    /// `true` or `false`.
    Bool(bool),
    /// `null`.
    Null,
}

/// Specification-level counterpart of [`JsonScalar`].
pub enum SpecScalar {
    /// A string value.
    Text(Seq<u8>),
    /// A rounded number and whether it was written whole.
    Num { value: int, integral: bool },
    /// `true` or `false`.
    Bool(bool),
    /// `null`.
    Null,
}

impl View for JsonScalar {
    type V = SpecScalar;

    open spec fn view(&self) -> SpecScalar {
        match self {
            JsonScalar::Text(t) => SpecScalar::Text(t@),
            JsonScalar::Num { value, integral } => SpecScalar::Num {
                value: *value as int,
                integral: *integral,
            },
            JsonScalar::Bool(b) => SpecScalar::Bool(*b),
            JsonScalar::Null => SpecScalar::Null,
        }
    }
}

/// One field of a parsed message.
#[derive(Clone, Debug)]
pub struct JsonField {
    /// The field's name, the bytes between its quotes.
    pub name: Vec<u8>,
    /// The field's value.
    pub value: JsonScalar,
}

/// Specification-level counterpart of [`JsonField`].
pub struct SpecField {
    /// The field's name.
    pub name: Seq<u8>,
    /// The field's value.
    pub value: SpecScalar,
}

impl View for JsonField {
    type V = SpecField;

    open spec fn view(&self) -> SpecField {
        SpecField { name: self.name@, value: self.value@ }
    }
}

/// JSON whitespace: space, tab, line feed, carriage return.
pub open spec fn is_ws(b: u8) -> bool {
    b == 0x20 || b == 0x09 || b == 0x0a || b == 0x0d
}

/// An ASCII decimal digit.
pub open spec fn is_digit(b: u8) -> bool {
    0x30 <= b <= 0x39
}

/// A byte that may stand inside a string value: anything but a quote,
/// a backslash or a control byte. Escape sequences are outside the
/// format.
pub open spec fn is_string_byte(b: u8) -> bool {
    b != 0x22 && b != 0x5c && b >= 0x20
}

/// First index at or after `i` that does not hold whitespace.
pub open spec fn spec_skip_ws(s: Seq<u8>, i: int) -> int
    decreases s.len() - i,
{
    if i < s.len() && is_ws(s[i]) {
        spec_skip_ws(s, i + 1)
    } else {
        i
    }
}

proof fn lemma_skip_ws_bounds(s: Seq<u8>, i: int)
    requires
        0 <= i <= s.len(),
    ensures
        i <= spec_skip_ws(s, i) <= s.len(),
    decreases s.len() - i,
{
    if i < s.len() && is_ws(s[i]) {
        lemma_skip_ws_bounds(s, i + 1);
    }
}

/// Index just past the closing quote of a string whose body starts at
/// `i`; `None` when the string never closes or holds a byte outside
/// the format.
pub open spec fn spec_string_end(s: Seq<u8>, i: int) -> Option<int>
    decreases s.len() - i,
{
    if i >= s.len() {
        None
    } else if s[i] == 0x22 {
        Some(i + 1)
    } else if is_string_byte(s[i]) {
        spec_string_end(s, i + 1)
    } else {
        None
    }
}

proof fn lemma_string_end_bounds(s: Seq<u8>, i: int)
    requires
        0 <= i <= s.len(),
    ensures
        match spec_string_end(s, i) {
            Some(j) => i < j <= s.len(),
            None => true,
        },
    decreases s.len() - i,
{
    if i < s.len() && s[i] != 0x22 && is_string_byte(s[i]) {
        lemma_string_end_bounds(s, i + 1);
    }
}

/// A string at `i`: its end and its content, the bytes between the
/// quotes.
pub open spec fn spec_string(s: Seq<u8>, i: int) -> Option<(int, Seq<u8>)> {
    if 0 <= i < s.len() && s[i] == 0x22 {
        match spec_string_end(s, i + 1) {
            Some(j) => Some((j, s.subrange(i + 1, j - 1))),
            None => None,
        }
    } else {
        None
    }
}

/// Digits consumed from `i` into an accumulator; fails as soon as the
/// accumulated magnitude leaves the signed 64-bit range.
pub open spec fn spec_digits(s: Seq<u8>, i: int, acc: int) -> Option<(int, int)>
    decreases s.len() - i,
{
    if i < s.len() && is_digit(s[i]) {
        let acc2 = acc * 10 + (s[i] - 0x30);
        if acc2 > i64::MAX {
            None
        } else {
            spec_digits(s, i + 1, acc2)
        }
    } else {
        Some((i, acc))
    }
}

proof fn lemma_digits_bounds(s: Seq<u8>, i: int, acc: int)
    requires
        0 <= i <= s.len(),
        0 <= acc <= i64::MAX,
    ensures
        match spec_digits(s, i, acc) {
            Some(r) => i <= r.0 <= s.len() && 0 <= r.1 <= i64::MAX,
            None => true,
        },
    decreases s.len() - i,
{
    if i < s.len() && is_digit(s[i]) {
        let acc2 = acc * 10 + (s[i] - 0x30);
        if acc2 <= i64::MAX {
            lemma_digits_bounds(s, i + 1, acc2);
        }
    }
}

/// Fraction digits from `i`: where they end and whether all are zero.
pub open spec fn spec_frac_zero(s: Seq<u8>, i: int) -> (int, bool)
    decreases s.len() - i,
{
    if i < s.len() && is_digit(s[i]) {
        let r = spec_frac_zero(s, i + 1);
        (r.0, r.1 && s[i] == 0x30)
    } else {
        (i, true)
    }
}

proof fn lemma_frac_zero_bounds(s: Seq<u8>, i: int)
    requires
        0 <= i <= s.len(),
    ensures
        i <= spec_frac_zero(s, i).0 <= s.len(),
    decreases s.len() - i,
{
    if i < s.len() && is_digit(s[i]) {
        lemma_frac_zero_bounds(s, i + 1);
    }
}

/// A number at `i`: its end, its rounded value (nearest integer, ties
/// away from zero) and whether it was written whole. Rejected when the
/// rounded magnitude leaves the signed 64-bit range.
pub open spec fn spec_number(s: Seq<u8>, i: int) -> Option<(int, int, bool)> {
    if 0 <= i < s.len() {
        let neg = s[i] == 0x2d;
        let d0 = if neg {
            i + 1
        } else {
            i
        };
        if d0 < s.len() && is_digit(s[d0]) {
            match spec_digits(s, d0, 0) {
                Some((j, magnitude)) => {
                    if j + 1 < s.len() && s[j] == 0x2e && is_digit(s[j + 1]) {
                        let first = s[j + 1] - 0x30;
                        let frac = spec_frac_zero(s, j + 1);
                        let rounded = if first >= 5 {
                            magnitude + 1
                        } else {
                            magnitude
                        };
                        if rounded > i64::MAX {
                            None
                        } else {
                            Some(
                                (
                                    frac.0,
                                    if neg {
                                        -rounded
                                    } else {
                                        rounded
                                    },
                                    frac.1,
                                ),
                            )
                        }
                    } else if j < s.len() && s[j] == 0x2e {
                        None
                    } else {
                        Some(
                            (
                                j,
                                if neg {
                                    -magnitude
                                } else {
                                    magnitude
                                },
                                true,
                            ),
                        )
                    }
                },
                None => None,
            }
        } else {
            None
        }
    } else {
        None
    }
}

proof fn lemma_number_bounds(s: Seq<u8>, i: int)
    requires
        0 <= i <= s.len(),
    ensures
        match spec_number(s, i) {
            Some(r) => i < r.0 <= s.len() && i64::MIN <= r.1 <= i64::MAX,
            None => true,
        },
{
    if 0 <= i < s.len() {
        let neg = s[i] == 0x2d;
        let d0 = if neg {
            i + 1
        } else {
            i
        };
        if d0 < s.len() && is_digit(s[d0]) {
            let d: int = s[d0] - 0x30;
            assert(spec_digits(s, d0, 0) == spec_digits(s, d0 + 1, d));
            lemma_digits_bounds(s, d0 + 1, d);
            match spec_digits(s, d0, 0) {
                Some((j, magnitude)) => {
                    assert(d0 + 1 <= j);
                    if j + 1 < s.len() && s[j] == 0x2e && is_digit(s[j + 1]) {
                        lemma_frac_zero_bounds(s, j + 1);
                    }
                },
                None => {},
            }
        }
    }
}

/// A scalar value at `i`.
pub open spec fn spec_value(s: Seq<u8>, i: int) -> Option<(int, SpecScalar)> {
    if 0 <= i < s.len() {
        if s[i] == 0x22 {
            match spec_string(s, i) {
                Some((j, t)) => Some((j, SpecScalar::Text(t))),
                None => None,
            }
        } else if s[i] == 0x74 {
            if i + 4 <= s.len() && s.subrange(i, i + 4) == true_lit() {
                Some((i + 4, SpecScalar::Bool(true)))
            } else {
                None
            }
        } else if s[i] == 0x66 {
            if i + 5 <= s.len() && s.subrange(i, i + 5) == false_lit() {
                Some((i + 5, SpecScalar::Bool(false)))
            } else {
                None
            }
        } else if s[i] == 0x6e {
            if i + 4 <= s.len() && s.subrange(i, i + 4) == null_lit() {
                Some((i + 4, SpecScalar::Null))
            } else {
                None
            }
        } else {
            match spec_number(s, i) {
                Some((j, v, integral)) => Some((j, SpecScalar::Num { value: v, integral })),
                None => None,
            }
        }
    } else {
        None
    }
}

/// The bytes of `true`.
pub open spec fn true_lit() -> Seq<u8> {
    seq![0x74u8, 0x72, 0x75, 0x65]
}

/// The bytes of `false`.
pub open spec fn false_lit() -> Seq<u8> {
    seq![0x66u8, 0x61, 0x6c, 0x73, 0x65]
}

/// The bytes of `null`.
pub open spec fn null_lit() -> Seq<u8> {
    seq![0x6eu8, 0x75, 0x6c, 0x6c]
}

proof fn lemma_value_bounds(s: Seq<u8>, i: int)
    requires
        0 <= i <= s.len(),
    ensures
        match spec_value(s, i) {
            Some(r) => i < r.0 <= s.len(),
            None => true,
        },
{
    if 0 <= i < s.len() {
        if s[i] == 0x22 {
            lemma_string_end_bounds(s, i + 1);
        } else if s[i] == 0x74 || s[i] == 0x66 || s[i] == 0x6e {
        } else {
            lemma_number_bounds(s, i);
        }
    }
}

/// One `"name": value` member at `i`.
pub open spec fn spec_member(s: Seq<u8>, i: int) -> Option<(int, SpecField)> {
    match spec_string(s, i) {
        Some((j, name)) => {
            let k = spec_skip_ws(s, j);
            if k < s.len() && s[k] == 0x3a {
                match spec_value(s, spec_skip_ws(s, k + 1)) {
                    Some((m, v)) => Some((m, SpecField { name, value: v })),
                    None => None,
                }
            } else {
                None
            }
        },
        None => None,
    }
}

proof fn lemma_member_bounds(s: Seq<u8>, i: int)
    requires
        0 <= i <= s.len(),
    ensures
        match spec_member(s, i) {
            Some(r) => i < r.0 <= s.len(),
            None => true,
        },
{
    match spec_string(s, i) {
        Some((j, name)) => {
            lemma_string_end_bounds(s, i + 1);
            let k = spec_skip_ws(s, j);
            lemma_skip_ws_bounds(s, j);
            if k < s.len() && s[k] == 0x3a {
                lemma_skip_ws_bounds(s, k + 1);
                lemma_value_bounds(s, spec_skip_ws(s, k + 1));
            }
        },
        None => {},
    }
}

/// The members after the first one: `, "name": value` until the
/// closing brace. The brace is consumed.
pub open spec fn spec_more_members(s: Seq<u8>, i: int) -> Option<(int, Seq<SpecField>)>
    decreases s.len() - i when 0 <= i <= s.len() via spec_more_members_decreases
{
    let j = spec_skip_ws(s, i);
    if j < s.len() && s[j] == 0x7d {
        Some((j + 1, Seq::empty()))
    } else if j < s.len() && s[j] == 0x2c {
        match spec_member(s, spec_skip_ws(s, j + 1)) {
            Some((k, f)) => match spec_more_members(s, k) {
                Some((m, rest)) => Some((m, seq![f] + rest)),
                None => None,
            },
            None => None,
        }
    } else {
        None
    }
}

#[via_fn]
proof fn spec_more_members_decreases(s: Seq<u8>, i: int) {
    lemma_skip_ws_bounds(s, i);
    let j = spec_skip_ws(s, i);
    if j < s.len() && s[j] != 0x7d && s[j] == 0x2c {
        lemma_skip_ws_bounds(s, j + 1);
        lemma_member_bounds(s, spec_skip_ws(s, j + 1));
    }
}

proof fn lemma_more_members_bounds(s: Seq<u8>, i: int)
    requires
        0 <= i <= s.len(),
    ensures
        match spec_more_members(s, i) {
            Some(r) => i < r.0 <= s.len(),
            None => true,
        },
    decreases s.len() - i,
{
    lemma_skip_ws_bounds(s, i);
    let j = spec_skip_ws(s, i);
    if j < s.len() && s[j] == 0x7d {
    } else if j < s.len() && s[j] == 0x2c {
        lemma_skip_ws_bounds(s, j + 1);
        lemma_member_bounds(s, spec_skip_ws(s, j + 1));
        match spec_member(s, spec_skip_ws(s, j + 1)) {
            Some((k, f)) => {
                lemma_more_members_bounds(s, k);
            },
            None => {},
        }
    }
}

/// The object at `i`: `{}` or `{ members }`. The index just past the
/// closing brace and the fields in written order.
pub open spec fn spec_object(s: Seq<u8>, i: int) -> Option<(int, Seq<SpecField>)> {
    if 0 <= i < s.len() && s[i] == 0x7b {
        let j = spec_skip_ws(s, i + 1);
        if j < s.len() && s[j] == 0x7d {
            Some((j + 1, Seq::empty()))
        } else {
            match spec_member(s, j) {
                Some((k, f)) => match spec_more_members(s, k) {
                    Some((m, rest)) => Some((m, seq![f] + rest)),
                    None => None,
                },
                None => None,
            }
        }
    } else {
        None
    }
}

/// A whole message: one object, surrounded by whitespace only.
pub open spec fn spec_message(s: Seq<u8>) -> Option<Seq<SpecField>> {
    match spec_object(s, spec_skip_ws(s, 0)) {
        Some((j, fields)) => if spec_skip_ws(s, j) == s.len() {
            Some(fields)
        } else {
            None
        },
        None => None,
    }
}

/// The value that decides field `name`: of several occurrences the
/// last one wins, as an overwriting map insertion would have it.
pub open spec fn lookup(fields: Seq<SpecField>, name: Seq<u8>) -> Option<SpecScalar>
    decreases fields.len(),
{
    if fields.len() == 0 {
        None
    } else if fields.last().name == name {
        Some(fields.last().value)
    } else {
        lookup(fields.drop_last(), name)
    }
}

impl DeepView for JsonField {
    type V = SpecField;

    open spec fn deep_view(&self) -> SpecField {
        self@
    }
}

fn skip_ws(s: &Vec<u8>, i: usize) -> (r: usize)
    requires
        i <= s@.len(),
    ensures
        r as int == spec_skip_ws(s@, i as int),
        i <= r <= s@.len(),
    decreases s@.len() - i,
{
    if i < s.len() && (s[i] == 0x20 || s[i] == 0x09 || s[i] == 0x0a || s[i] == 0x0d) {
        skip_ws(s, i + 1)
    } else {
        i
    }
}

fn string_end(s: &Vec<u8>, i: usize) -> (r: Option<usize>)
    requires
        i <= s@.len(),
    ensures
        match r {
            Some(j) => spec_string_end(s@, i as int) == Some(j as int) && i < j <= s@.len(),
            None => spec_string_end(s@, i as int) is None,
        },
    decreases s@.len() - i,
{
    if i >= s.len() {
        None
    } else if s[i] == 0x22 {
        Some(i + 1)
    } else if s[i] != 0x5c && s[i] >= 0x20 {
        string_end(s, i + 1)
    } else {
        None
    }
}

fn parse_string(s: &Vec<u8>, i: usize) -> (r: Option<(usize, Vec<u8>)>)
    requires
        i <= s@.len(),
    ensures
        match r {
            Some(p) => spec_string(s@, i as int) == Some((p.0 as int, p.1@)) && i < p.0
                <= s@.len(),
            None => spec_string(s@, i as int) is None,
        },
{
    if i < s.len() && s[i] == 0x22 {
        match string_end(s, i + 1) {
            Some(j) => {
                let content = crate::text::copy_range(s, i + 1, j - 1);
                Some((j, content))
            },
            None => None,
        }
    } else {
        None
    }
}

fn digits(s: &Vec<u8>, i: usize, acc: i64) -> (r: Option<(usize, i64)>)
    requires
        i <= s@.len(),
        0 <= acc,
    ensures
        match r {
            Some(p) => spec_digits(s@, i as int, acc as int) == Some((p.0 as int, p.1 as int))
                && i <= p.0 <= s@.len() && 0 <= p.1,
            None => spec_digits(s@, i as int, acc as int) is None,
        },
    decreases s@.len() - i,
{
    if i < s.len() && 0x30 <= s[i] && s[i] <= 0x39 {
        let acc2: i128 = (acc as i128) * 10 + ((s[i] - 0x30) as i128);
        if acc2 > i64::MAX as i128 {
            None
        } else {
            digits(s, i + 1, acc2 as i64)
        }
    } else {
        Some((i, acc))
    }
}

fn frac_zero(s: &Vec<u8>, i: usize) -> (r: (usize, bool))
    requires
        i <= s@.len(),
    ensures
        spec_frac_zero(s@, i as int) == (r.0 as int, r.1),
        i <= r.0 <= s@.len(),
    decreases s@.len() - i,
{
    if i < s.len() && 0x30 <= s[i] && s[i] <= 0x39 {
        let rest = frac_zero(s, i + 1);
        (rest.0, rest.1 && s[i] == 0x30)
    } else {
        (i, true)
    }
}

fn parse_number(s: &Vec<u8>, i: usize) -> (r: Option<(usize, i64, bool)>)
    requires
        i <= s@.len(),
    ensures
        match r {
            Some(p) => spec_number(s@, i as int) == Some((p.0 as int, p.1 as int, p.2)) && i
                < p.0 <= s@.len(),
            None => spec_number(s@, i as int) is None,
        },
{
    if i >= s.len() {
        return None;
    }
    let neg = s[i] == 0x2d;
    let d0 = if neg {
        i + 1
    } else {
        i
    };
    if !(d0 < s.len() && 0x30 <= s[d0] && s[d0] <= 0x39) {
        return None;
    }
    match digits(s, d0, 0) {
        Some((j, magnitude)) => {
            proof {
                let d: int = s@[d0 as int] - 0x30;
                assert(spec_digits(s@, d0 as int, 0) == spec_digits(s@, d0 as int + 1, d));
                lemma_digits_bounds(s@, d0 as int + 1, d);
            }
            if j < s.len() && s[j] == 0x2e && j + 1 < s.len() && 0x30 <= s[j + 1] && s[j + 1]
                <= 0x39 {
                let first = s[j + 1] - 0x30;
                let frac = frac_zero(s, j + 1);
                if first >= 5 {
                    if magnitude == i64::MAX {
                        return None;
                    }
                    let rounded = magnitude + 1;
                    Some(
                        (
                            frac.0,
                            if neg {
                                -rounded
                            } else {
                                rounded
                            },
                            frac.1,
                        ),
                    )
                } else {
                    Some(
                        (
                            frac.0,
                            if neg {
                                -magnitude
                            } else {
                                magnitude
                            },
                            frac.1,
                        ),
                    )
                }
            } else if j < s.len() && s[j] == 0x2e {
                None
            } else {
                Some(
                    (
                        j,
                        if neg {
                            -magnitude
                        } else {
                            magnitude
                        },
                        true,
                    ),
                )
            }
        },
        None => None,
    }
}

fn parse_value(s: &Vec<u8>, i: usize) -> (r: Option<(usize, JsonScalar)>)
    requires
        i <= s@.len(),
    ensures
        match r {
            Some(p) => spec_value(s@, i as int) == Some((p.0 as int, p.1@)) && i < p.0
                <= s@.len(),
            None => spec_value(s@, i as int) is None,
        },
{
    if i >= s.len() {
        return None;
    }
    if s[i] == 0x22 {
        match parse_string(s, i) {
            Some((j, t)) => Some((j, JsonScalar::Text(t))),
            None => None,
        }
    } else if s[i] == 0x74 {
        if s.len() - i >= 4 && s[i + 1] == 0x72 && s[i + 2] == 0x75 && s[i + 3] == 0x65 {
            proof {
                assert(s@.subrange(i as int, i as int + 4) =~= true_lit());
            }
            Some((i + 4, JsonScalar::Bool(true)))
        } else {
            proof {
                if i + 4 <= s@.len() {
                    assert(s@.subrange(i as int, i as int + 4)[1] == s@[i + 1]);
                    assert(s@.subrange(i as int, i as int + 4)[2] == s@[i + 2]);
                    assert(s@.subrange(i as int, i as int + 4)[3] == s@[i + 3]);
                }
            }
            None
        }
    } else if s[i] == 0x66 {
        if s.len() - i >= 5 && s[i + 1] == 0x61 && s[i + 2] == 0x6c && s[i + 3] == 0x73 && s[i
            + 4] == 0x65 {
            proof {
                assert(s@.subrange(i as int, i as int + 5) =~= false_lit());
            }
            Some((i + 5, JsonScalar::Bool(false)))
        } else {
            proof {
                if i + 5 <= s@.len() {
                    assert(s@.subrange(i as int, i as int + 5)[1] == s@[i + 1]);
                    assert(s@.subrange(i as int, i as int + 5)[2] == s@[i + 2]);
                    assert(s@.subrange(i as int, i as int + 5)[3] == s@[i + 3]);
                    assert(s@.subrange(i as int, i as int + 5)[4] == s@[i + 4]);
                }
            }
            None
        }
    } else if s[i] == 0x6e {
        if s.len() - i >= 4 && s[i + 1] == 0x75 && s[i + 2] == 0x6c && s[i + 3] == 0x6c {
            proof {
                assert(s@.subrange(i as int, i as int + 4) =~= null_lit());
            }
            Some((i + 4, JsonScalar::Null))
        } else {
            proof {
                if i + 4 <= s@.len() {
                    assert(s@.subrange(i as int, i as int + 4)[1] == s@[i + 1]);
                    assert(s@.subrange(i as int, i as int + 4)[2] == s@[i + 2]);
                    assert(s@.subrange(i as int, i as int + 4)[3] == s@[i + 3]);
                }
            }
            None
        }
    } else {
        match parse_number(s, i) {
            Some((j, v, integral)) => Some((j, JsonScalar::Num { value: v, integral })),
            None => None,
        }
    }
}

fn parse_member(s: &Vec<u8>, i: usize) -> (r: Option<(usize, JsonField)>)
    requires
        i <= s@.len(),
    ensures
        match r {
            Some(p) => spec_member(s@, i as int) == Some((p.0 as int, p.1@)) && i < p.0
                <= s@.len(),
            None => spec_member(s@, i as int) is None,
        },
{
    match parse_string(s, i) {
        Some((j, name)) => {
            let k = skip_ws(s, j);
            if k < s.len() && s[k] == 0x3a {
                let v0 = skip_ws(s, k + 1);
                match parse_value(s, v0) {
                    Some((m, value)) => Some((m, JsonField { name, value })),
                    None => None,
                }
            } else {
                None
            }
        },
        None => None,
    }
}

fn parse_more_members(s: &Vec<u8>, i: usize) -> (r: Option<(usize, Vec<JsonField>)>)
    requires
        i <= s@.len(),
    ensures
        match r {
            Some(p) => spec_more_members(s@, i as int) == Some((p.0 as int, p.1.deep_view()))
                && i < p.0 <= s@.len(),
            None => spec_more_members(s@, i as int) is None,
        },
    decreases s@.len() - i,
{
    let j = skip_ws(s, i);
    if j < s.len() && s[j] == 0x7d {
        Some((j + 1, Vec::new()))
    } else if j < s.len() && s[j] == 0x2c {
        let m0 = skip_ws(s, j + 1);
        match parse_member(s, m0) {
            Some((k, f)) => {
                match parse_more_members(s, k) {
                    Some((m, mut rest)) => {
                        rest.insert(0, f);
                        proof {
                            assert(rest.deep_view() =~= seq![f@]
                                + rest.deep_view().skip(1));
                        }
                        Some((m, rest))
                    },
                    None => None,
                }
            },
            None => None,
        }
    } else {
        None
    }
}

fn parse_object(s: &Vec<u8>, i: usize) -> (r: Option<(usize, Vec<JsonField>)>)
    requires
        i <= s@.len(),
    ensures
        match r {
            Some(p) => spec_object(s@, i as int) == Some((p.0 as int, p.1.deep_view())) && i
                < p.0 <= s@.len(),
            None => spec_object(s@, i as int) is None,
        },
{
    if i < s.len() && s[i] == 0x7b {
        let j = skip_ws(s, i + 1);
        if j < s.len() && s[j] == 0x7d {
            Some((j + 1, Vec::new()))
        } else {
            match parse_member(s, j) {
                Some((k, f)) => {
                    match parse_more_members(s, k) {
                        Some((m, mut rest)) => {
                            rest.insert(0, f);
                            proof {
                                assert(rest.deep_view() =~= seq![f@]
                                    + rest.deep_view().skip(1));
                            }
                            Some((m, rest))
                        },
                        None => None,
                    }
                },
                None => None,
            }
        }
    } else {
        None
    }
}

/// Parses one wire message: its fields in written order, or `None`
/// when the bytes are not one well-formed flat object.
pub fn parse_message(s: &Vec<u8>) -> (r: Option<Vec<JsonField>>)
    ensures
        match r {
            Some(fields) => spec_message(s@) == Some(fields.deep_view()),
            None => spec_message(s@) is None,
        },
{
    let start = skip_ws(s, 0);
    match parse_object(s, start) {
        Some((j, fields)) => {
            if skip_ws(s, j) == s.len() {
                Some(fields)
            } else {
                None
            }
        },
        None => None,
    }
}

} // verus!
