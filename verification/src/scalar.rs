//! Scalar coercion: turning one raw captured string into a primitive value,
//! following the canonical textual grammar of each target kind.

use vstd::prelude::*;
use crate::value::Value;
use crate::value::ValueV;
use crate::value::opt_value_view;

verus! {

/// The primitive kinds a raw capture string can be coerced into.
///
/// Integer kinds follow the usual decimal grammar (an optional sign followed
/// by one or more digits, the value within the kind's range); `Bool` accepts
/// exactly `true` or `false`; `Char` accepts exactly one character; `Text`
/// takes the raw string unchanged.
#[derive(Clone, Copy, PartialEq, Eq, Structural, Debug)]
pub enum ScalarKind {
    Bool,
    Char,
    Text,
    U8,
    U16,
    U32,
    U64,
    I8,
    I16,
    I32,
    I64,
}

pub open spec fn is_dec_digit(c: char) -> bool {
    '0' as u32 <= c as u32 <= '9' as u32
}

pub open spec fn digit_value(c: char) -> int {
    c as u32 - '0' as u32
}

pub open spec fn all_dec_digits(s: Seq<char>) -> bool {
    forall|i: int| 0 <= i < s.len() ==> is_dec_digit(#[trigger] s[i])
}

/// The value of a digit string read in base ten.
pub open spec fn dec_value(s: Seq<char>) -> int
    decreases s.len(),
{
    if s.len() == 0 {
        0
    } else {
        dec_value(s.drop_last()) * 10 + digit_value(s.last())
    }
}

pub open spec fn true_chars() -> Seq<char> {
    seq!['t', 'r', 'u', 'e']
}

pub open spec fn false_chars() -> Seq<char> {
    seq!['f', 'a', 'l', 's', 'e']
}

pub open spec fn has_sign(s: Seq<char>) -> bool {
    s.len() > 0 && (s[0] == '+' || s[0] == '-')
}

pub open spec fn is_negative_text(s: Seq<char>) -> bool {
    s.len() > 0 && s[0] == '-'
}

/// The digits of an integer literal, the optional leading sign removed.
pub open spec fn digits_of(s: Seq<char>) -> Seq<char> {
    if has_sign(s) {
        s.skip(1)
    } else {
        s
    }
}

/// Whether `s` is a well-formed decimal integer: an optional sign (`-` only
/// when the target is signed) followed by one or more decimal digits.
pub open spec fn int_text_ok(s: Seq<char>, signed: bool) -> bool {
    &&& digits_of(s).len() > 0
    &&& all_dec_digits(digits_of(s))
    &&& (is_negative_text(s) ==> signed)
}

/// The mathematical value of a well-formed decimal integer string.
pub open spec fn int_text_value(s: Seq<char>) -> int {
    if is_negative_text(s) {
        -dec_value(digits_of(s))
    } else {
        dec_value(digits_of(s))
    }
}

pub open spec fn is_int_kind(kind: ScalarKind) -> bool {
    !matches!(kind, ScalarKind::Bool | ScalarKind::Char | ScalarKind::Text)
}

pub open spec fn is_signed_kind(kind: ScalarKind) -> bool {
    matches!(kind, ScalarKind::I8 | ScalarKind::I16 | ScalarKind::I32 | ScalarKind::I64)
}

pub open spec fn kind_min(kind: ScalarKind) -> int {
    match kind {
        ScalarKind::I8 => i8::MIN as int,
        ScalarKind::I16 => i16::MIN as int,
        ScalarKind::I32 => i32::MIN as int,
        ScalarKind::I64 => i64::MIN as int,
        _ => 0,
    }
}

pub open spec fn kind_max(kind: ScalarKind) -> int {
    match kind {
        ScalarKind::U8 => u8::MAX as int,
        ScalarKind::U16 => u16::MAX as int,
        ScalarKind::U32 => u32::MAX as int,
        ScalarKind::U64 => u64::MAX as int,
        ScalarKind::I8 => i8::MAX as int,
        ScalarKind::I16 => i16::MAX as int,
        ScalarKind::I32 => i32::MAX as int,
        ScalarKind::I64 => i64::MAX as int,
        _ => 0,
    }
}

/// All-digit strings have a nonnegative value.
pub proof fn lemma_dec_value_nonneg(s: Seq<char>)
    requires
        all_dec_digits(s),
    ensures
        dec_value(s) >= 0,
    decreases s.len(),
{
    if s.len() > 0 {
        assert(all_dec_digits(s.drop_last()));
        lemma_dec_value_nonneg(s.drop_last());
    }
}

/// Extending a digit string on the right never lowers its value.
pub proof fn lemma_dec_value_take_mono(s: Seq<char>, j: int)
    requires
        all_dec_digits(s),
        0 <= j <= s.len(),
    ensures
        dec_value(s.take(j)) <= dec_value(s),
    decreases s.len() - j,
{
    if j < s.len() {
        let t = s.take(j + 1);
        assert(t.drop_last() =~= s.take(j));
        assert(all_dec_digits(t.drop_last()));
        lemma_dec_value_nonneg(t.drop_last());
        assert(dec_value(t) == dec_value(s.take(j)) * 10 + digit_value(t.last()));
        assert(dec_value(s.take(j)) * 10 >= dec_value(s.take(j)));
        lemma_dec_value_take_mono(s, j + 1);
        assert(s.take(s.len() as int) =~= s);
    } else {
        assert(s.take(j) =~= s);
    }
}

/// Parses the digit run of `raw` beginning at `start`, accumulating in base
/// ten, and rejects any value whose magnitude exceeds `limit`.
fn parse_digits(raw: &str, start: usize, limit: u128) -> (r: Option<u128>)
    requires
        start <= raw@.len(),
        limit <= u64::MAX as u128,
    ensures
        match r {
            Some(v) => {
                &&& raw@.skip(start as int).len() > 0
                &&& all_dec_digits(raw@.skip(start as int))
                &&& v == dec_value(raw@.skip(start as int))
                &&& v <= limit
            },
            None => {
                let d = raw@.skip(start as int);
                d.len() == 0 || !all_dec_digits(d) || dec_value(d) > limit
            },
        },
{
    let n = raw.unicode_len();
    if start >= n {
        return None;
    }
    let ghost d = raw@.skip(start as int);
    let mut acc: u128 = 0;
    let mut j: usize = start;
    while j < n
        invariant
            start <= j <= n,
            n == raw@.len(),
            limit <= u64::MAX as u128,
            d == raw@.skip(start as int),
            all_dec_digits(d.take(j - start)),
            acc == dec_value(d.take(j - start)),
            acc <= limit,
        decreases n - j,
    {
        let c = raw.get_char(j);
        let cv: u32 = c as u32;
        if cv < '0' as u32 || cv > '9' as u32 {
            assert(d[j - start] == raw@[j as int]);
            assert(!is_dec_digit(d[j - start]));
            return None;
        }
        let dv: u32 = cv - '0' as u32;
        assert(d.take(j + 1 - start).drop_last() =~= d.take(j - start));
        assert(d.take(j + 1 - start).last() == raw@[j as int]);
        acc = acc * 10 + dv as u128;
        j = j + 1;
        if acc > limit {
            proof {
                if all_dec_digits(d) {
                    lemma_dec_value_take_mono(d, j - start);
                }
            }
            return None;
        }
    }
    assert(d.take(n - start) =~= d);
    Some(acc)
}

/// Parses `raw` as a decimal integer: an optional `+` or `-` sign (`-` only
/// when `signed` is set) followed by one or more digits, the value within
/// `min ..= max`.
pub fn parse_int_text(raw: &str, signed: bool, min: i128, max: i128) -> (r: Option<i128>)
    requires
        min <= 0 <= max,
        -min <= u64::MAX as int,
        max <= u64::MAX as int,
    ensures
        match r {
            Some(v) => {
                &&& int_text_ok(raw@, signed)
                &&& min <= v <= max
                &&& v == int_text_value(raw@)
            },
            None => !(int_text_ok(raw@, signed) && min <= int_text_value(raw@) <= max),
        },
{
    let n = raw.unicode_len();
    if n == 0 {
        return None;
    }
    let c0 = raw.get_char(0);
    let negative = c0 == '-';
    let start: usize = if c0 == '+' || negative {
        1
    } else {
        0
    };
    if negative && !signed {
        return None;
    }
    let limit: u128 = if negative {
        (-min) as u128
    } else {
        max as u128
    };
    proof {
        if start == 0 {
            assert(raw@.skip(0) =~= raw@);
        }
    }
    match parse_digits(raw, start, limit) {
        None => {
            proof {
                let d = digits_of(raw@);
                if int_text_ok(raw@, signed) {
                    lemma_dec_value_nonneg(d);
                }
            }
            None
        },
        Some(mag) => {
            let v: i128 = if negative {
                -(mag as i128)
            } else {
                mag as i128
            };
            Some(v)
        },
    }
}

/// Accepts exactly the strings `true` and `false`.
pub fn parse_bool_text(raw: &str) -> (r: Option<bool>)
    ensures
        raw@ == true_chars() ==> r == Some(true),
        raw@ == false_chars() ==> r == Some(false),
        raw@ != true_chars() && raw@ != false_chars() ==> r is None,
{
    let n = raw.unicode_len();
    if n == 4 {
        if raw.get_char(0) == 't' && raw.get_char(1) == 'r' && raw.get_char(2) == 'u'
            && raw.get_char(3) == 'e' {
            assert(raw@ =~= true_chars());
            return Some(true);
        }
        assert(raw@ != true_chars() && raw@ != false_chars());
        None
    } else if n == 5 {
        if raw.get_char(0) == 'f' && raw.get_char(1) == 'a' && raw.get_char(2) == 'l'
            && raw.get_char(3) == 's' && raw.get_char(4) == 'e' {
            assert(raw@ =~= false_chars());
            return Some(false);
        }
        assert(raw@ != true_chars() && raw@ != false_chars());
        None
    } else {
        assert(raw@ != true_chars() && raw@ != false_chars());
        None
    }
}

/// What coercing one raw string to a scalar kind yields: the parsed value,
/// or nothing when the raw text does not fit the kind's grammar or range.
pub open spec fn coerce_scalar_model(kind: ScalarKind, raw: Seq<char>) -> Option<ValueV> {
    match kind {
        ScalarKind::Text => Option::Some(ValueV::Text(raw)),
        ScalarKind::Bool => if raw == true_chars() {
            Option::Some(ValueV::Bool(true))
        } else if raw == false_chars() {
            Option::Some(ValueV::Bool(false))
        } else {
            Option::None
        },
        ScalarKind::Char => if raw.len() == 1 {
            Option::Some(ValueV::Char(raw[0]))
        } else {
            Option::None
        },
        _ => if int_text_ok(raw, is_signed_kind(kind)) && kind_min(kind) <= int_text_value(raw)
            <= kind_max(kind) {
            Option::Some(ValueV::Int(int_text_value(raw)))
        } else {
            Option::None
        },
    }
}

/// Converts one raw captured string into the scalar it stands for. Text is
/// returned unchanged; every other kind is parsed by its own grammar, with no
/// trimming or case folding.
pub fn coerce_scalar(kind: ScalarKind, raw: &str) -> (r: Option<Value>)
    ensures
        opt_value_view(r) == coerce_scalar_model(kind, raw@),
{
    match kind {
        ScalarKind::Text => Option::Some(Value::Text(raw.to_owned())),
        ScalarKind::Bool => match parse_bool_text(raw) {
            Option::Some(b) => Option::Some(Value::Bool(b)),
            Option::None => Option::None,
        },
        ScalarKind::Char => {
            if raw.unicode_len() == 1 {
                Option::Some(Value::Char(raw.get_char(0)))
            } else {
                Option::None
            }
        },
        ScalarKind::U8 => coerce_int(raw, false, 0, u8::MAX as i128),
        ScalarKind::U16 => coerce_int(raw, false, 0, u16::MAX as i128),
        ScalarKind::U32 => coerce_int(raw, false, 0, u32::MAX as i128),
        ScalarKind::U64 => coerce_int(raw, false, 0, u64::MAX as i128),
        ScalarKind::I8 => coerce_int(raw, true, i8::MIN as i128, i8::MAX as i128),
        ScalarKind::I16 => coerce_int(raw, true, i16::MIN as i128, i16::MAX as i128),
        ScalarKind::I32 => coerce_int(raw, true, i32::MIN as i128, i32::MAX as i128),
        ScalarKind::I64 => coerce_int(raw, true, i64::MIN as i128, i64::MAX as i128),
    }
}

pub open spec fn digit_char(d: int) -> char {
    if d == 0 {
        '0'
    } else if d == 1 {
        '1'
    } else if d == 2 {
        '2'
    } else if d == 3 {
        '3'
    } else if d == 4 {
        '4'
    } else if d == 5 {
        '5'
    } else if d == 6 {
        '6'
    } else if d == 7 {
        '7'
    } else if d == 8 {
        '8'
    } else {
        '9'
    }
}

/// The canonical decimal rendering of a nonnegative integer: most
/// significant digit first, no leading zeros but for the value zero itself.
pub open spec fn dec_digits(v: nat) -> Seq<char>
    decreases v,
{
    if v < 10 {
        seq![digit_char(v as int)]
    } else {
        dec_digits(v / 10).push(digit_char((v % 10) as int))
    }
}

/// The canonical decimal rendering of any integer: a leading minus sign for
/// negative values, digits alone otherwise.
pub open spec fn render_int(v: int) -> Seq<char> {
    if v < 0 {
        seq!['-'] + dec_digits((-v) as nat)
    } else {
        dec_digits(v as nat)
    }
}

pub proof fn lemma_dec_digits_value(v: nat)
    ensures
        dec_digits(v).len() >= 1,
        all_dec_digits(dec_digits(v)),
        dec_value(dec_digits(v)) == v,
    decreases v,
{
    if v < 10 {
        let s = dec_digits(v);
        assert(s.len() == 1);
        assert(is_dec_digit(s[0]));
        assert(s.drop_last() =~= Seq::<char>::empty());
        assert(dec_value(Seq::<char>::empty()) == 0);
        assert(s.last() == s[0]);
        assert(dec_value(s) == digit_value(s[0]));
        assert(digit_value(digit_char(v as int)) == v);
    } else {
        lemma_dec_digits_value(v / 10);
        let s = dec_digits(v);
        let p = dec_digits(v / 10);
        let c = digit_char((v % 10) as int);
        assert(s == p.push(c));
        assert(s.drop_last() =~= p);
        assert(s.last() == c);
        assert(digit_value(c) == v % 10);
        assert(forall|i: int| 0 <= i < s.len() ==> is_dec_digit(#[trigger] s[i])) by {
            assert(forall|i: int| 0 <= i < p.len() ==> s[i] == #[trigger] p[i]);
        }
        assert(dec_value(s) == dec_value(p) * 10 + digit_value(c));
        assert((v / 10) * 10 + v % 10 == v);
    }
}

/// Round trip through text, the heart of rendering-then-binding: coercing
/// the canonical decimal rendering of any in-range value back to the same
/// integer kind reproduces the value exactly.
pub proof fn lemma_render_coerce_round_trip(kind: ScalarKind, v: int)
    requires
        is_int_kind(kind),
        kind_min(kind) <= v <= kind_max(kind),
    ensures
        coerce_scalar_model(kind, render_int(v)) == Option::Some(ValueV::Int(v)),
{
    let s = render_int(v);
    if v < 0 {
        let d = dec_digits((-v) as nat);
        lemma_dec_digits_value((-v) as nat);
        assert(s[0] == '-');
        assert(is_negative_text(s) && has_sign(s));
        assert(s.skip(1) =~= d);
        assert(int_text_value(s) == -dec_value(d));
        assert(is_signed_kind(kind)) by {
            assert(kind_min(kind) <= v < 0);
        }
    } else {
        let d = dec_digits(v as nat);
        lemma_dec_digits_value(v as nat);
        assert(is_dec_digit(s[0]));
        assert(s[0] != '-' && s[0] != '+');
        assert(!has_sign(s) && !is_negative_text(s));
        assert(digits_of(s) == s);
        assert(int_text_value(s) == dec_value(d));
    }
}

/// The text kind round-trips a raw string unchanged, and the boolean kind
/// maps the canonical renderings `true` and `false` back to their values.
pub proof fn lemma_text_bool_round_trip(raw: Seq<char>)
    ensures
        coerce_scalar_model(ScalarKind::Text, raw) == Option::Some(ValueV::Text(raw)),
        coerce_scalar_model(ScalarKind::Bool, true_chars()) == Option::Some(ValueV::Bool(true)),
        coerce_scalar_model(ScalarKind::Bool, false_chars()) == Option::Some(ValueV::Bool(false)),
{
    assert(true_chars() != false_chars()) by {
        assert(true_chars().len() != false_chars().len());
    }
}

fn coerce_int(raw: &str, signed: bool, min: i128, max: i128) -> (r: Option<Value>)
    requires
        min <= 0 <= max,
        -min <= u64::MAX as int,
        max <= u64::MAX as int,
    ensures
        match r {
            Option::Some(v) => int_text_ok(raw@, signed) && min <= int_text_value(raw@) <= max
                && v@ == ValueV::Int(int_text_value(raw@)),
            Option::None => !(int_text_ok(raw@, signed) && min <= int_text_value(raw@) <= max),
        },
{
    match parse_int_text(raw, signed, min, max) {
        Option::Some(v) => Option::Some(Value::Int(v)),
        Option::None => Option::None,
    }
}

} // verus!
