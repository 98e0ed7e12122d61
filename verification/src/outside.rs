//! Calls into outside crates and into std functions that vstd does not specify.

use vstd::prelude::*;
use crate::json::{Json, JsonValue};
use crate::text::{ascii_lower, ascii_upper, is_ascii_alnum};
use base64::Engine;

verus! {

#[verifier::external_type_specification]
#[verifier::external_body]
pub struct ExSerdeJsonValue(serde_json::Value);

/// Upper-case hexadecimal digit of `d` (0..16).
pub open spec fn hex_upper(d: u8) -> char {
    if d < 10 {
        ((d + 48) as u8) as char
    } else {
        ((d + 55) as u8) as char
    }
}

/// `percent_encoding::percent_encode_byte`: the text `%XX`, with `XX` the two
/// upper-case hexadecimal digits of `b` (the crate reads them from a table).
#[verifier::external_body]
pub fn percent_byte(b: u8) -> (r: &'static str)
    ensures
        r@ == seq!['%', hex_upper(b / 16), hex_upper(b % 16)],
{
    percent_encoding::percent_encode_byte(b)
}

/// The character of a 6-bit value in the standard Base64 alphabet
/// (`A`-`Z`, `a`-`z`, `0`-`9`, `+`, `/`).
pub open spec fn base64_char(d: int) -> char {
    if d < 26 {
        (65 + d) as char
    } else if d < 52 {
        (97 + d - 26) as char
    } else if d < 62 {
        (48 + d - 52) as char
    } else if d == 62 {
        '+'
    } else {
        '/'
    }
}

/// Standard (RFC 4648, padded) Base64 text of `bytes`: each group of three
/// bytes gives four characters; a final group of one or two bytes is padded
/// with `=`.
pub open spec fn base64_text(bytes: Seq<u8>) -> Seq<char>
    decreases bytes.len(),
{
    if bytes.len() == 0 {
        Seq::empty()
    } else if bytes.len() == 1 {
        let a = bytes[0] as int;
        seq![base64_char(a / 4), base64_char((a % 4) * 16), '=', '=']
    } else if bytes.len() == 2 {
        let a = bytes[0] as int;
        let b = bytes[1] as int;
        seq![base64_char(a / 4), base64_char((a % 4) * 16 + b / 16), base64_char((b % 16) * 4), '=']
    } else {
        let a = bytes[0] as int;
        let b = bytes[1] as int;
        let c = bytes[2] as int;
        seq![
            base64_char(a / 4),
            base64_char((a % 4) * 16 + b / 16),
            base64_char((b % 16) * 4 + c / 64),
            base64_char(c % 64),
        ] + base64_text(bytes.skip(3))
    }
}

/// `base64::engine::general_purpose::STANDARD.encode` of the UTF-8 bytes of `s`:
/// their standard, padded Base64 text.
#[verifier::external_body]
pub fn base64_standard(s: &str) -> (r: String)
    ensures
        r@ == base64_text(vstd::utf8::encode_utf8(s@)),
{
    base64::engine::general_purpose::STANDARD.encode(s)
}

/// Compact JSON text (`serde_json::to_string`) of a value.
pub uninterp spec fn json_text(v: Json) -> Seq<char>;

/// What `serde_json::from_str::<Value>` gives for a text: the value, or the
/// error's display text when the text is not JSON.
pub uninterp spec fn json_read(s: Seq<char>) -> Result<Json, Seq<char>>;

/// The value a text holds as JSON, if it is JSON.
pub open spec fn json_parse(s: Seq<char>) -> Option<Json> {
    match json_read(s) {
        Ok(j) => Some(j),
        Err(_) => None,
    }
}

/// `serde_json::to_string` of `v` (a `Value` never fails to serialise).
#[verifier::external_body]
pub fn json_to_text(v: &JsonValue) -> (r: String)
    ensures
        r@ == json_text(v@),
{
    serde_json::to_string(&to_serde(v)).unwrap_or_default()
}

/// `serde_json::from_str::<Value>` of `s`, converted to the library's value;
/// the error as its display text.
#[verifier::external_body]
pub fn json_from_text(s: &str) -> (r: Result<JsonValue, String>)
    ensures
        match r {
            Ok(v) => json_read(s@) == Ok::<Json, Seq<char>>(v@),
            Err(m) => json_read(s@) == Err::<Json, Seq<char>>(m@),
        },
{
    match serde_json::from_str::<serde_json::Value>(s) {
        Ok(v) => Ok(from_serde(&v)),
        Err(e) => Err(e.to_string()),
    }
}

/// What `serde_yaml::from_str::<serde_json::Value>` gives for a text: the
/// value the YAML document holds, or the error's display text.
pub uninterp spec fn yaml_read(s: Seq<char>) -> Result<Json, Seq<char>>;

/// `serde_yaml::from_str::<serde_json::Value>` of `s`, converted to the
/// library's value; the error as its display text.
#[verifier::external_body]
pub fn yaml_from_text(s: &str) -> (r: Result<JsonValue, String>)
    ensures
        match r {
            Ok(v) => yaml_read(s@) == Ok::<Json, Seq<char>>(v@),
            Err(m) => yaml_read(s@) == Err::<Json, Seq<char>>(m@),
        },
{
    match serde_yaml::from_str::<serde_json::Value>(s) {
        Ok(v) => Ok(from_serde(&v)),
        Err(e) => Err(e.to_string()),
    }
}

/// The `serde_json` value of a library value, member for member.
#[verifier::external_body]
fn to_serde(v: &JsonValue) -> serde_json::Value {
    match v {
        JsonValue::Null => serde_json::Value::Null,
        JsonValue::Bool(b) => serde_json::Value::Bool(*b),
        JsonValue::Number(n) => n.parse::<serde_json::Number>().map(serde_json::Value::Number).unwrap_or(serde_json::Value::Null),
        JsonValue::Str(s) => serde_json::Value::String(s.clone()),
        JsonValue::Array(items) => serde_json::Value::Array(items.iter().map(to_serde).collect()),
        JsonValue::Object(ms) => serde_json::Value::Object(ms.iter().map(|(k, x)| (k.clone(), to_serde(x))).collect()),
    }
}

/// The library value of a `serde_json` value, member for member.
#[verifier::external_body]
fn from_serde(v: &serde_json::Value) -> JsonValue {
    match v {
        serde_json::Value::Null => JsonValue::Null,
        serde_json::Value::Bool(b) => JsonValue::Bool(*b),
        serde_json::Value::Number(n) => JsonValue::Number(n.to_string()),
        serde_json::Value::String(s) => JsonValue::Str(s.clone()),
        serde_json::Value::Array(items) => JsonValue::Array(items.iter().map(from_serde).collect()),
        serde_json::Value::Object(ms) => JsonValue::Object(ms.iter().map(|(k, x)| (k.clone(), from_serde(x))).collect()),
    }
}

/// Every character of `s` is ASCII.
pub open spec fn ascii_text(s: Seq<char>) -> bool {
    forall|i: int| 0 <= i < s.len() ==> (s[i] as u32) < 128
}

/// Unicode lower-case mapping (`str::to_lowercase`) of a text with a
/// character beyond ASCII.
pub uninterp spec fn unicode_lowercase(s: Seq<char>) -> Seq<char>;

/// Unicode upper-case mapping (`str::to_uppercase`) of a text with a
/// character beyond ASCII.
pub uninterp spec fn unicode_uppercase(s: Seq<char>) -> Seq<char>;

/// Unicode `Alphabetic` or `Numeric` (`char::is_alphanumeric`) of a character
/// beyond ASCII.
pub uninterp spec fn unicode_alphanumeric(c: char) -> bool;

/// Unicode lower-case mapping of a text (`str::to_lowercase`): on ASCII text,
/// ASCII letters lower-cased and nothing else changed.
pub open spec fn lowercase(s: Seq<char>) -> Seq<char> {
    if ascii_text(s) {
        ascii_lower(s)
    } else {
        unicode_lowercase(s)
    }
}

/// Unicode upper-case mapping of a text (`str::to_uppercase`): on ASCII text,
/// ASCII letters upper-cased and nothing else changed.
pub open spec fn uppercase(s: Seq<char>) -> Seq<char> {
    if ascii_text(s) {
        ascii_upper(s)
    } else {
        unicode_uppercase(s)
    }
}

/// Unicode `Alphabetic` or `Numeric` (`char::is_alphanumeric`): for an ASCII
/// character, an ASCII letter or digit.
pub open spec fn alphanumeric(c: char) -> bool {
    if (c as u32) < 128 {
        is_ascii_alnum(c)
    } else {
        unicode_alphanumeric(c)
    }
}

/// `str::to_lowercase`: on ASCII text the ASCII lower-casing; beyond ASCII the
/// contract names the result.
#[verifier::external_body]
pub fn to_lowercase(s: &str) -> (r: String)
    ensures
        r@ == lowercase(s@),
        !ascii_text(s@) ==> r@ == unicode_lowercase(s@),
{
    s.to_lowercase()
}

/// `str::to_uppercase`: on ASCII text the ASCII upper-casing; beyond ASCII the
/// contract names the result.
#[verifier::external_body]
pub fn to_uppercase(s: &str) -> (r: String)
    ensures
        r@ == uppercase(s@),
        !ascii_text(s@) ==> r@ == unicode_uppercase(s@),
{
    s.to_uppercase()
}

/// `char::is_alphanumeric`: for an ASCII character, whether it is an ASCII
/// letter or digit; beyond ASCII the contract names the result.
#[verifier::external_body]
pub fn is_alphanumeric(c: char) -> (r: bool)
    ensures
        r == alphanumeric(c),
        (c as u32) >= 128 ==> r == unicode_alphanumeric(c),
{
    c.is_alphanumeric()
}

} // verus!
