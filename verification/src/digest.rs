//! Digests of text and bytes.
use vstd::prelude::*;

verus! {

/// The MD5 digest of the UTF-8 bytes of a text, in lower-case hexadecimal digits.
pub uninterp spec fn md5_hex(text: Seq<char>) -> Seq<char>;

/// Calls `md5::compute` on the bytes of the text and writes the digest with `{:x}`: the
/// result depends on the text alone.
#[verifier::external_body]
pub(crate) fn md5_digest(text: &str) -> (r: String)
    ensures
        r@ == md5_hex(text@),
{
    format!("{:x}", md5::compute(text.as_bytes()))
}

/// The SHA-256 digest of bytes, in lower-case hexadecimal digits.
pub uninterp spec fn sha256_hex(bytes: Seq<u8>) -> Seq<char>;

/// Calls `Sha256::digest` and writes the digest with `{:x}`: the result depends on the bytes
/// alone.
#[verifier::external_body]
pub(crate) fn sha256_digest(bytes: &Vec<u8>) -> (r: String)
    ensures
        r@ == sha256_hex(bytes@),
{
    format!("{:x}", <sha2::Sha256 as sha2::Digest>::digest(bytes))
}

} // verus!
