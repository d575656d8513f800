//! Addresses, base64 and characters, as the crates that know them see them.
use crate::text::result_view;
use vstd::prelude::*;

verus! {

/// The path of an address, or the text of the error with which it is refused.
pub uninterp spec fn url_path(text: Seq<char>) -> Result<Seq<char>, Seq<char>>;

/// An address with another path; nothing where it is no address.
pub uninterp spec fn url_with_path(text: Seq<char>, path: Seq<char>) -> Option<Seq<char>>;

/// The scheme of an address, or the text of the error with which it is refused.
pub uninterp spec fn url_scheme(text: Seq<char>) -> Result<Seq<char>, Seq<char>>;

/// Whether a text is an address with a host.
pub uninterp spec fn url_has_host(text: Seq<char>) -> bool;

/// The bytes that a base64 text stands for, or the text of the error with which it is refused.
pub uninterp spec fn base64_decoded(text: Seq<char>) -> Result<Seq<u8>, Seq<char>>;

/// Whether bytes are a picture that can be decoded.
pub uninterp spec fn is_picture(bytes: Seq<u8>) -> bool;

/// The base64 text of bytes.
pub uninterp spec fn base64_encoded(bytes: Seq<u8>) -> Seq<char>;

/// The text of bytes that are meant to be UTF-8, with a mark for what is not.
pub uninterp spec fn utf8_lossy(bytes: Seq<u8>) -> Seq<char>;

/// Whether a character is a hexadecimal digit.
pub open spec fn is_hex_digit(c: char) -> bool {
    '0' <= c <= '9' || 'a' <= c <= 'f' || 'A' <= c <= 'F'
}

/// Whether a text is a universally unique identifier in its form with dashes.
pub open spec fn is_hyphenated_uuid(s: Seq<char>) -> bool {
    &&& s.len() == 36
    &&& forall|i: int|
        0 <= i < 36 ==> if i == 8 || i == 13 || i == 18 || i == 23 {
            #[trigger] s[i] == '-'
        } else {
            is_hex_digit(s[i])
        }
}

/// Whether a character is a letter or a number in the sense of Unicode.
pub uninterp spec fn is_alphanumeric(c: char) -> bool;

/// A decimal number with three digits after the point.
pub uninterp spec fn fixed_three(text: Seq<char>) -> Seq<char>;

/// Calls `Url::parse` and `Url::path`: the path depends on the text alone.
#[verifier::external_body]
pub(crate) fn parse_url_path(text: &str) -> (r: Result<String, String>)
    ensures
        result_view(r) == url_path(text@),
{
    reqwest::Url::parse(text).map(|url| url.path().to_string()).map_err(|e| e.to_string())
}

/// Calls `Url::parse` and `Url::set_path`, and writes the address again: the text depends on
/// the two texts alone.
#[verifier::external_body]
pub(crate) fn set_url_path(text: &str, path: &str) -> (r: Option<String>)
    ensures
        (match r {
            Some(s) => Some(s@),
            None => None,
        }) == url_with_path(text@, path@),
        r is Some <==> url_path(text@) is Ok,
{
    let mut url = reqwest::Url::parse(text).ok()?;
    url.set_path(path);
    Some(url.to_string())
}

/// Calls `Url::parse` and `Url::scheme`: the scheme depends on the text alone.
#[verifier::external_body]
pub(crate) fn parse_url_scheme(text: &str) -> (r: Result<String, String>)
    ensures
        result_view(r) == url_scheme(text@),
{
    reqwest::Url::parse(text).map(|url| url.scheme().to_string()).map_err(|e| e.to_string())
}

/// Calls `Url::parse` and `Url::host_str`: whether there is a host depends on the text alone.
#[verifier::external_body]
pub(crate) fn parse_url_host(text: &str) -> (r: bool)
    ensures
        r == url_has_host(text@),
{
    reqwest::Url::parse(text).is_ok_and(|url| url.host_str().is_some())
}

/// Calls `Engine::decode` of the standard base64 engine: the bytes depend on the text alone.
#[verifier::external_body]
pub(crate) fn decode_base64(text: &str) -> (r: Result<Vec<u8>, String>)
    ensures
        result_view(r) == base64_decoded(text@),
{
    base64::Engine::decode(&base64::engine::general_purpose::STANDARD, text).map_err(
        |e| e.to_string(),
    )
}

/// Calls `Engine::encode` of the standard base64 engine: the text depends on the bytes alone.
#[verifier::external_body]
pub(crate) fn encode_base64(bytes: &Vec<u8>) -> (r: String)
    ensures
        r@ == base64_encoded(bytes@),
{
    base64::Engine::encode(&base64::engine::general_purpose::STANDARD, bytes)
}

/// Calls `image::load_from_memory`: whether there is a picture depends on the bytes alone.
#[verifier::external_body]
pub(crate) fn decode_picture(bytes: &Vec<u8>) -> (r: bool)
    ensures
        r == is_picture(bytes@),
{
    image::load_from_memory(bytes).is_ok()
}

/// Calls `String::from_utf8_lossy`: the text depends on the bytes alone.
#[verifier::external_body]
pub(crate) fn read_utf8_lossy(bytes: &Vec<u8>) -> (r: String)
    ensures
        r@ == utf8_lossy(bytes@),
{
    String::from_utf8_lossy(bytes).into_owned()
}

/// Calls `Uuid::parse_str`: of the texts of thirty-six characters it takes those in the form
/// with dashes.
#[verifier::external_body]
pub(crate) fn parse_uuid(text: &str) -> (r: bool)
    requires
        text@.len() == 36,
    ensures
        r == is_hyphenated_uuid(text@),
{
    uuid::Uuid::parse_str(text).is_ok()
}

/// Calls `char::is_alphanumeric`.
#[verifier::external_body]
pub(crate) fn alphanumeric(c: char) -> (r: bool)
    ensures
        r == is_alphanumeric(c),
{
    c.is_alphanumeric()
}

/// Writes a decimal number with three digits after the point, as `{:.3}` does; a text that is
/// no number is written as zero is.
#[verifier::external_body]
pub(crate) fn write_fixed_three(text: &str) -> (r: String)
    ensures
        r@ == fixed_three(text@),
{
    let value = text.parse().ok().and_then(serde_json::Number::from_f64).and_then(|n| n.as_f64());
    format!("{:.3}", value.unwrap_or_default())
}

} // verus!
