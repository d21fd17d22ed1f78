//! The calls into other crates and into std's clock, each with the contract
//! that the library relies on.
use vstd::prelude::*;
use std::time::{Duration, SystemTime, UNIX_EPOCH};

verus! {

/// What `base64::engine::general_purpose::STANDARD.decode` gives for some
/// input bytes: the decoded bytes, or nothing where the engine refuses the
/// input (alphabet, padding or trailing bits out of the standard form).
pub uninterp spec fn base64_standard_decode(input: Seq<u8>) -> Option<Seq<u8>>;

/// `base64::Engine::decode` with the `STANDARD` engine. The contract claims
/// only that the outcome is a function of the input bytes, named
/// `base64_standard_decode`; the error's details are dropped.
#[verifier::external_body]
pub(crate) fn decode_base64(input: &[u8]) -> (r: Option<Vec<u8>>)
    ensures
        base64_standard_decode(input@) == match r {
            Some(bytes) => Some(bytes@),
            None => None,
        },
{
    base64::Engine::decode(&base64::engine::general_purpose::STANDARD, input).ok()
}

/// A character of the HTTP `token` grammar, which is what the `http` crate's
/// header-name table admits (upper-case letters are admitted and lowered).
pub open spec fn is_token_char(c: char) -> bool {
    ||| 'a' <= c <= 'z'
    ||| 'A' <= c <= 'Z'
    ||| '0' <= c <= '9'
    ||| c == '!' || c == '#' || c == '$' || c == '%' || c == '&' || c == '\''
    ||| c == '*' || c == '+' || c == '-' || c == '.' || c == '^' || c == '_'
    ||| c == '`' || c == '|' || c == '~'
}

/// The names that `HeaderName::from_str` accepts: between 1 and 65535
/// characters, each of the `token` grammar.
pub open spec fn header_name_accepted(name: Seq<char>) -> bool {
    &&& 1 <= name.len() <= 65535
    &&& forall|i: int| 0 <= i < name.len() ==> is_token_char(#[trigger] name[i])
}

/// The values that `HeaderValue::from_str` accepts: each UTF-8 byte is a tab
/// or at least 32 and not 127, so each character is a tab, or at least a
/// space and not DEL (characters beyond ASCII encode to bytes above 127).
pub open spec fn header_value_accepted(value: Seq<char>) -> bool {
    forall|i: int|
        0 <= i < value.len() ==> (#[trigger] value[i] == '\t' || (value[i] >= ' ' && value[i] != '\x7f'))
}

/// `reqwest::header::HeaderName::from_str` (the `http` crate's), reduced to
/// whether it succeeds; by its source it fails exactly on empty names, names
/// longer than 65535 bytes, and bytes outside the `token` table.
#[verifier::external_body]
pub(crate) fn header_name_parses(name: &str) -> (r: bool)
    ensures
        r == header_name_accepted(name@),
{
    name.parse::<reqwest::header::HeaderName>().is_ok()
}

/// `reqwest::header::HeaderValue::from_str` (the `http` crate's), reduced to
/// whether it succeeds; by its source it fails exactly where some byte is
/// below 32 and not a tab, or is 127.
#[verifier::external_body]
pub(crate) fn header_value_parses(value: &str) -> (r: bool)
    ensures
        r == header_value_accepted(value@),
{
    reqwest::header::HeaderValue::from_str(value).is_ok()
}

/// Whether `reqwest::multipart::Part::mime_str` accepts a MIME type, which
/// it decides by parsing the text with the `mime` crate.
pub uninterp spec fn mime_str_accepts(mime: Seq<char>) -> bool;

/// `reqwest::multipart::Part::mime_str`, reduced to whether it succeeds. The
/// contract claims only that this depends on the text alone (named
/// `mime_str_accepts`); the part's bytes play no role in it.
#[verifier::external_body]
pub(crate) fn mime_accepted(mime: &str) -> (r: bool)
    ensures
        r == mime_str_accepts(mime@),
{
    reqwest::multipart::Part::bytes(Vec::new()).mime_str(mime).is_ok()
}

#[verifier::external_type_specification]
#[verifier::external_body]
pub struct ExSystemTime(SystemTime);

/// `SystemTime::now`: the clock's reading, of which nothing is claimed.
#[verifier::external_body]
pub(crate) fn system_now() -> SystemTime {
    SystemTime::now()
}

/// `SystemTime::duration_since` the Unix epoch, `None` where the clock reads
/// earlier than the epoch; nothing is claimed of the duration.
#[verifier::external_body]
pub(crate) fn since_unix_epoch(t: &SystemTime) -> Option<Duration> {
    t.duration_since(UNIX_EPOCH).ok()
}

/// `Duration::as_millis`: nothing is claimed of the count.
#[verifier::external_body]
pub(crate) fn duration_millis(d: &Duration) -> u128 {
    d.as_millis()
}

} // verus!
