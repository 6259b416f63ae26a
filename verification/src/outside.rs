//! Trusted boundary to the standard library and outside crates.
//!
//! Each item here wraps exactly one outside call whose behaviour Verus cannot
//! see; its contract states only what the callee's source or documentation
//! plainly shows. Everything else in this crate is verified against these
//! contracts.

use vstd::prelude::*;

verus! {

/// Relies on str::chars and Iterator::collect: the characters of a string
/// slice, in order, as a vector.
#[verifier::external_body]
pub fn chars_of(s: &str) -> (r: Vec<char>)
    ensures
        r@ == s@,
{
    s.chars().collect()
}

/// Relies on String::from_iter (through Iterator::collect): building a string
/// from its characters.
#[verifier::external_body]
pub fn string_from_chars(v: &Vec<char>) -> (r: String)
    ensures
        r@ == v@,
{
    v.iter().collect()
}

/// Whether a character counts as alphanumeric, as char::is_alphanumeric
/// decides it: a function of the character alone.
pub uninterp spec fn spec_is_alphanumeric(c: char) -> bool;

/// Relies on char::is_alphanumeric: the result depends on the character alone.
#[verifier::external_body]
pub fn is_alphanumeric_char(c: char) -> (r: bool)
    ensures
        r == spec_is_alphanumeric(c),
{
    c.is_alphanumeric()
}

/// Relies on char::from_u32: defined exactly for Unicode scalar values, where
/// it returns the character with that code point.
#[verifier::external_body]
pub fn char_from_u32(x: u32) -> (r: Option<char>)
    ensures
        r is Some <==> vstd::utf8::is_scalar(x),
        r matches Some(c) ==> c == (x as char) && c as u32 == x,
{
    char::from_u32(x)
}

/// The 64 lowercase hexadecimal characters of the 256-bit BLAKE3 digest of the
/// UTF-8 bytes of a string: a function of the string alone.
pub uninterp spec fn fingerprint_of(s: Seq<char>) -> Seq<char>;

/// Relies on blake3::hash and Hash::to_hex: the digest is determined by the
/// input bytes alone, and its hex form is 64 characters long.
#[verifier::external_body]
pub fn blake3_hex(s: &str) -> (r: String)
    ensures
        r@ == fingerprint_of(s@),
        r@.len() == 64,
{
    blake3::hash(s.as_bytes()).to_hex().to_string()
}

/// Whether `pattern` is a valid regular expression, as regex::Regex::new
/// decides it. A function of the pattern alone.
pub uninterp spec fn regex_ok(pattern: Seq<char>) -> bool;

/// Whether the regular expression `pattern` matches somewhere in `text`, as
/// regex::Regex::is_match decides it. A function of the two strings alone.
pub uninterp spec fn regex_match(pattern: Seq<char>, text: Seq<char>) -> bool;

/// Relies on regex::Regex::new and Regex::is_match: compiling the pattern
/// succeeds exactly for valid patterns, and matching is a pure function of the
/// pattern and the text. The error case carries the compiler's message.
#[verifier::external_body]
pub fn regex_is_match(pattern: &str, text: &str) -> (r: Result<bool, String>)
    ensures
        r is Ok <==> regex_ok(pattern@),
        r matches Ok(b) ==> b == regex_match(pattern@, text@),
{
    match regex::Regex::new(pattern) {
        Ok(re) => Ok(re.is_match(text)),
        Err(e) => Err(e.to_string()),
    }
}

/// The JSON text of the value a YAML document denotes, as serde_yaml parses
/// it and serde_json prints it, or nothing when the text is not valid YAML
/// that maps onto a JSON value: a function of the text alone.
pub uninterp spec fn yaml_as_json(s: Seq<char>) -> Option<Seq<char>>;

/// Relies on serde_yaml::from_str and serde_json::to_string: the YAML text is
/// parsed into a JSON value and printed back as JSON text, both deterministic
/// functions of the input; the error case carries the parser's message.
#[verifier::external_body]
pub fn yaml_to_json_text(yaml: &str) -> (r: Result<String, String>)
    ensures
        r matches Ok(j) ==> yaml_as_json(yaml@) == Some(j@),
        r is Err <==> yaml_as_json(yaml@) is None,
{
    match serde_yaml::from_str::<serde_json::Value>(yaml) {
        Ok(v) => match serde_json::to_string(&v) {
            Ok(j) => Ok(j),
            Err(e) => Err(e.to_string()),
        },
        Err(e) => Err(e.to_string()),
    }
}

/// The YAML text serde_yaml prints for the value a JSON text denotes, or
/// nothing when the text is not valid JSON: a function of the text alone.
pub uninterp spec fn json_as_yaml(s: Seq<char>) -> Option<Seq<char>>;

/// Relies on serde_json::from_str and serde_yaml::to_string: the JSON text is
/// parsed into a JSON value and printed as YAML, both deterministic functions
/// of the input; the error case carries the parser's message.
#[verifier::external_body]
pub fn json_to_yaml_text(json: &str) -> (r: Result<String, String>)
    ensures
        r matches Ok(y) ==> json_as_yaml(json@) == Some(y@),
        r is Err <==> json_as_yaml(json@) is None,
{
    match serde_json::from_str::<serde_json::Value>(json) {
        Ok(v) => match serde_yaml::to_string(&v) {
            Ok(y) => Ok(y),
            Err(e) => Err(e.to_string()),
        },
        Err(e) => Err(e.to_string()),
    }
}

/// Relies on chrono::Utc::now and DateTime::to_rfc3339: the current wall-clock
/// time as an RFC 3339 timestamp. The result depends on the clock, so nothing
/// is promised of it.
#[verifier::external_body]
pub fn now_rfc3339() -> String {
    chrono::Utc::now().to_rfc3339()
}

/// Relies on chrono::Utc::now and DateTime::timestamp_micros: the current
/// wall-clock time as microseconds since the Unix epoch. The result depends on
/// the clock, so nothing is promised of it.
#[verifier::external_body]
pub fn now_micros() -> i64 {
    chrono::Utc::now().timestamp_micros()
}

} // verus!
