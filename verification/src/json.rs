//! JSON text. Values are `serde_json`'s own; strings are written by it too.

use vstd::prelude::*;

verus! {

#[verifier::external_type_specification]
#[verifier::external_body]
pub struct ExValue(serde_json::Value);

#[verifier::external_type_specification]
#[verifier::external_body]
pub struct ExError(serde_json::Error);

/// The lower-case hexadecimal digit for `d`, with `d` below sixteen.
pub open spec fn hex_digit(d: int) -> char {
    seq!['0', '1', '2', '3', '4', '5', '6', '7', '8', '9', 'a', 'b', 'c', 'd', 'e', 'f'][d]
}

/// How one character stands inside a JSON string.
pub open spec fn escaped_char(c: char) -> Seq<char> {
    if c == '"' || c == '\\' {
        seq!['\\', c]
    } else if c == '\u{8}' {
        seq!['\\', 'b']
    } else if c == '\t' {
        seq!['\\', 't']
    } else if c == '\n' {
        seq!['\\', 'n']
    } else if c == '\u{c}' {
        seq!['\\', 'f']
    } else if c == '\r' {
        seq!['\\', 'r']
    } else if (c as int) < 0x20 {
        seq!['\\', 'u', '0', '0', hex_digit(c as int / 16), hex_digit(c as int % 16)]
    } else {
        seq![c]
    }
}

/// The characters of `s` as they stand inside a JSON string.
pub open spec fn escaped(s: Seq<char>) -> Seq<char>
    decreases s.len(),
{
    if s.len() == 0 {
        Seq::empty()
    } else {
        escaped(s.drop_last()) + escaped_char(s.last())
    }
}

/// `s` as a JSON string, in its quotes.
pub open spec fn quoted(s: Seq<char>) -> Seq<char> {
    seq!['"'] + escaped(s) + seq!['"']
}

/// The compact JSON text of a value.
pub uninterp spec fn json_text(value: serde_json::Value) -> Seq<char>;

/// `serde_json::to_string` on a string: it never fails there, and writes the
/// string in quotes. The quote, the backslash and the characters below U+0020
/// are escaped, by the short forms where JSON has one and as `\u00xx` in lower
/// case otherwise; all other characters stand for themselves.
#[verifier::external_body]
pub(crate) fn string_to_json(s: &str) -> (res: Result<String, serde_json::Error>)
    ensures
        res is Ok,
        res->Ok_0@ == quoted(s@),
{
    serde_json::to_string(s)
}

/// `serde_json::to_string` on a value: it never fails there, since the keys of
/// a value's objects are strings, and writes the value's compact text.
#[verifier::external_body]
pub(crate) fn value_to_json(value: &serde_json::Value) -> (res: Result<String, serde_json::Error>)
    ensures
        res is Ok,
        res->Ok_0@ == json_text(*value),
{
    serde_json::to_string(value)
}

/// `serde_json::Value::Null`, whose text is `null`.
#[verifier::external_body]
pub(crate) fn null_value() -> (res: serde_json::Value)
    ensures
        json_text(res) == "null"@,
{
    serde_json::Value::Null
}

/// `serde_json::to_value` on an absent payload: it never fails there, and gives
/// the value whose text is `null`.
#[verifier::external_body]
pub(crate) fn absent_to_value() -> (res: Result<serde_json::Value, serde_json::Error>)
    ensures
        res is Ok,
        json_text(res->Ok_0) == "null"@,
{
    serde_json::to_value(None::<()>)
}

} // verus!
