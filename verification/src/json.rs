//! JSON text of the protocol's documents: strings and numbers are written by
//! `aws_smithy_json`; objects and arrays are framed here the way its writers frame them.
use vstd::prelude::*;

use crate::text::{decimal, digit_char, join, push_chars, push_joined, push_str, signed_decimal, text_of, to_chars, views};

verus! {

/// A lower-case hexadecimal digit.
pub open spec fn hex_digit(d: nat) -> char {
    if d < 10 {
        digit_char(d)
    } else {
        ((87 + d) as u32) as char
    }
}

/// How one character stands inside a JSON string.
pub open spec fn escaped_char(c: char) -> Seq<char> {
    if c == '"' {
        seq!['\\', '"']
    } else if c == '\\' {
        seq!['\\', '\\']
    } else if c == '\u{8}' {
        seq!['\\', 'b']
    } else if c == '\u{c}' {
        seq!['\\', 'f']
    } else if c == '\n' {
        seq!['\\', 'n']
    } else if c == '\r' {
        seq!['\\', 'r']
    } else if c == '\t' {
        seq!['\\', 't']
    } else if (c as int) < 0x20 {
        seq!['\\', 'u', '0', '0', hex_digit((c as int / 16) as nat), hex_digit((c as int % 16) as nat)]
    } else {
        seq![c]
    }
}

/// The characters of `s`, each escaped for a JSON string.
pub open spec fn escaped(s: Seq<char>) -> Seq<char>
    decreases s.len(),
{
    if s.len() == 0 {
        seq![]
    } else {
        escaped(s.drop_last()) + escaped_char(s.last())
    }
}

/// A JSON string literal holding `s`.
pub open spec fn json_string_text(s: Seq<char>) -> Seq<char> {
    seq!['"'] + escaped(s) + seq!['"']
}

/// `s` without its trailing `0` characters.
pub open spec fn strip_trailing_zeros(s: Seq<char>) -> Seq<char>
    decreases s.len(),
{
    if s.len() > 0 && s.last() == '0' {
        strip_trailing_zeros(s.drop_last())
    } else {
        s
    }
}

/// The numeral of `n` left-padded with zeros to nine digits.
pub open spec fn decimal_09(n: nat) -> Seq<char> {
    Seq::new((9 - decimal(n).len()) as nat, |i: int| '0') + decimal(n)
}

/// Smithy's epoch-seconds timestamp: the seconds, then, when there are nanoseconds,
/// a point and the nine-digit fraction without its trailing zeros.
pub open spec fn epoch_seconds_text(seconds: int, subsecond_nanos: nat) -> Seq<char> {
    if subsecond_nanos == 0 {
        signed_decimal(seconds)
    } else {
        strip_trailing_zeros(signed_decimal(seconds) + seq!['.'] + decimal_09(subsecond_nanos))
    }
}

/// `JsonValueWriter::string`: a JSON string literal, with `"`, `\` and the control
/// characters escaped.
#[verifier::external_body]
fn json_string(value: &str) -> (r: String)
    ensures
        r@ == json_string_text(value@),
{
    let mut out = String::new();
    aws_smithy_json::serialize::JsonValueWriter::new(&mut out).string(value);
    out
}

/// `JsonValueWriter::number` of `Number::NegInt(value)`: the decimal numeral of the
/// integer.
#[verifier::external_body]
fn json_integer(value: i64) -> (r: String)
    ensures
        r@ == signed_decimal(value as int),
{
    let mut out = String::new();
    aws_smithy_json::serialize::JsonValueWriter::new(&mut out).number(
        aws_smithy_types::Number::NegInt(value),
    );
    out
}

/// `JsonValueWriter::date_time` of `DateTime::from_secs_and_nanos(seconds, nanos)` in the
/// epoch-seconds format.
#[verifier::external_body]
fn json_epoch_seconds(seconds: i64, subsecond_nanos: u32) -> (r: String)
    requires
        subsecond_nanos < 1_000_000_000,
    ensures
        r@ == epoch_seconds_text(seconds as int, subsecond_nanos as nat),
{
    let mut out = String::new();
    let date_time = aws_smithy_types::DateTime::from_secs_and_nanos(seconds, subsecond_nanos);
    match aws_smithy_json::serialize::JsonValueWriter::new(&mut out).date_time(
        &date_time,
        aws_smithy_types::date_time::Format::EpochSeconds,
    ) {
        Ok(()) => {},
        Err(_) => {},
    }
    out
}

/// A point in time: seconds since the Unix epoch and a fraction of a second.
#[derive(Clone, Copy, Debug)]
pub struct Timestamp {
    pub seconds: i64,
    pub subsecond_nanos: u32,
}

impl Timestamp {
    /// The fraction is less than one second.
    pub open spec fn is_valid(&self) -> bool {
        self.subsecond_nanos < 1_000_000_000
    }
}

/// `"key":value`.
pub open spec fn json_member(key: Seq<char>, value: Seq<char>) -> Seq<char> {
    json_string_text(key) + seq![':'] + value
}

/// A JSON object of the given members, in order.
pub open spec fn json_object(members: Seq<Seq<char>>) -> Seq<char> {
    seq!['{'] + join(members, seq![',']) + seq!['}']
}

/// A JSON array of the given values, in order.
pub open spec fn json_array(values: Seq<Seq<char>>) -> Seq<char> {
    seq!['['] + join(values, seq![',']) + seq![']']
}

pub open spec fn opt_text(o: Option<String>) -> Option<Seq<char>> {
    match o {
        Some(s) => Some(s@),
        None => None,
    }
}

/// The member for an optional string: none when it is absent.
pub open spec fn string_member(key: Seq<char>, value: Option<String>) -> Seq<Seq<char>> {
    match value {
        Some(v) => seq![json_member(key, json_string_text(v@))],
        None => seq![],
    }
}

/// The member for an optional integer: none when it is absent.
pub open spec fn integer_member(key: Seq<char>, value: Option<i64>) -> Seq<Seq<char>> {
    match value {
        Some(v) => seq![json_member(key, signed_decimal(v as int))],
        None => seq![],
    }
}

/// The member for an optional timestamp: none when it is absent.
pub open spec fn timestamp_member(key: Seq<char>, value: Option<Timestamp>) -> Seq<Seq<char>> {
    match value {
        Some(t) => seq![json_member(key, epoch_seconds_text(t.seconds as int, t.subsecond_nanos as nat))],
        None => seq![],
    }
}

fn push_member(members: &mut Vec<Vec<char>>, key: &str, value: &str)
    ensures
        views(final(members)@) == views(old(members)@).push(json_member(key@, value@)),
{
    let k = json_string(key);
    let mut m = to_chars(k.as_str());
    m.push(':');
    push_str(&mut m, value);
    let ghost before = views(members@);
    assert(m@ =~= json_member(key@, value@));
    members.push(m);
    assert(views(members@) =~= before.push(json_member(key@, value@)));
}

/// Adds the member of an optional string.
pub fn push_string_member(members: &mut Vec<Vec<char>>, key: &str, value: &Option<String>)
    ensures
        views(final(members)@) == views(old(members)@) + string_member(key@, *value),
{
    match value {
        Some(v) => {
            let s = json_string(v.as_str());
            push_member(members, key, s.as_str());
            assert(views(members@) =~= views(old(members)@) + string_member(key@, *value));
        },
        None => {
            assert(views(members@) =~= views(old(members)@) + string_member(key@, *value));
        },
    }
}

/// Adds the member of an optional integer.
pub fn push_integer_member(members: &mut Vec<Vec<char>>, key: &str, value: Option<i64>)
    ensures
        views(final(members)@) == views(old(members)@) + integer_member(key@, value),
{
    match value {
        Some(v) => {
            let s = json_integer(v);
            push_member(members, key, s.as_str());
            assert(views(members@) =~= views(old(members)@) + integer_member(key@, value));
        },
        None => {
            assert(views(members@) =~= views(old(members)@) + integer_member(key@, value));
        },
    }
}

/// Adds the member of an optional timestamp.
pub fn push_timestamp_member(members: &mut Vec<Vec<char>>, key: &str, value: Option<Timestamp>)
    requires
        value matches Some(t) ==> t.is_valid(),
    ensures
        views(final(members)@) == views(old(members)@) + timestamp_member(key@, value),
{
    match value {
        Some(t) => {
            let s = json_epoch_seconds(t.seconds, t.subsecond_nanos);
            push_member(members, key, s.as_str());
            assert(views(members@) =~= views(old(members)@) + timestamp_member(key@, value));
        },
        None => {
            assert(views(members@) =~= views(old(members)@) + timestamp_member(key@, value));
        },
    }
}

/// Adds a member whose value is already JSON text.
pub fn push_raw_member(members: &mut Vec<Vec<char>>, key: &str, value: &Vec<char>)
    ensures
        views(final(members)@) == views(old(members)@).push(json_member(key@, value@)),
{
    let k = json_string(key);
    let mut m = to_chars(k.as_str());
    m.push(':');
    push_chars(&mut m, value);
    let ghost before = views(members@);
    assert(m@ =~= json_member(key@, value@));
    members.push(m);
    assert(views(members@) =~= before.push(json_member(key@, value@)));
}

/// The JSON object of the members, in order.
pub fn object_text(members: &Vec<Vec<char>>) -> (r: Vec<char>)
    ensures
        r@ == json_object(views(members@)),
{
    let mut out: Vec<char> = Vec::new();
    out.push('{');
    push_joined(&mut out, members, ",");
    out.push('}');
    proof {
        reveal_strlit(",");
        assert(","@ =~= seq![',']);
    }
    assert(out@ =~= json_object(views(members@)));
    out
}

/// The JSON array of the values, in order.
pub fn array_text(values: &Vec<Vec<char>>) -> (r: Vec<char>)
    ensures
        r@ == json_array(views(values@)),
{
    let mut out: Vec<char> = Vec::new();
    out.push('[');
    push_joined(&mut out, values, ",");
    out.push(']');
    proof {
        reveal_strlit(",");
        assert(","@ =~= seq![',']);
    }
    assert(out@ =~= json_array(views(values@)));
    out
}

/// The string holding the JSON text.
pub fn json_text(v: &Vec<char>) -> (r: String)
    ensures
        r@ == v@,
{
    text_of(v)
}

} // verus!
