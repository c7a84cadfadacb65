//! Hashes, MACs and encodings from outside crates, with what they promise.

use vstd::prelude::*;
use base64::Engine;
use hmac::Mac;
use sha1::Digest;

verus! {

/// The MD5 digest of `data` (16 bytes).
pub uninterp spec fn md5_digest(data: Seq<u8>) -> Seq<u8>;

/// The SHA-1 digest of `data` (20 bytes).
pub uninterp spec fn sha1_digest(data: Seq<u8>) -> Seq<u8>;

/// HMAC-SHA256 of `msg` under `key`.
pub uninterp spec fn hmac_sha256(key: Seq<u8>, msg: Seq<u8>) -> Seq<u8>;

/// HMAC-SHA1 of `msg` under `key`.
pub uninterp spec fn hmac_sha1(key: Seq<u8>, msg: Seq<u8>) -> Seq<u8>;

/// Standard (padded) base64 text of `data`.
pub uninterp spec fn base64_standard(data: Seq<u8>) -> Seq<char>;

/// The bytes that standard base64 text decodes to, or `None` when it is not valid.
pub uninterp spec fn base64_standard_decode(text: Seq<u8>) -> Option<Seq<u8>>;

/// Lowercase hexadecimal digit for `n < 16`.
pub open spec fn hex_digit(n: int) -> char {
    if n < 10 {
        (('0' as int) + n) as char
    } else {
        (('a' as int) + n - 10) as char
    }
}

/// Lowercase hexadecimal text of bytes, two digits per byte, high nibble first.
pub open spec fn hex_lower(b: Seq<u8>) -> Seq<char>
    decreases b.len(),
{
    if b.len() == 0 {
        Seq::empty()
    } else {
        hex_lower(b.drop_last()) + seq![hex_digit((b.last() / 16) as int), hex_digit((b.last() % 16) as int)]
    }
}

/// `md5::compute` formatted with `{:x}`: the digest in lowercase hex
/// (md5's `LowerHex` writes each of the 16 digest bytes as `{:02x}`,
/// 32 digits in all).
#[verifier::external_body]
pub(crate) fn md5_hex(data: &[u8]) -> (r: String)
    ensures
        r@ == hex_lower(md5_digest(data@)),
        r@.len() == 32,
{
    format!("{:x}", md5::compute(data))
}

/// `sha1::Sha1` digest of `data`.
#[verifier::external_body]
pub(crate) fn sha1_bytes(data: &[u8]) -> (r: Vec<u8>)
    ensures
        r@ == sha1_digest(data@),
{
    sha1::Sha1::digest(data).to_vec()
}

/// `hmac::Hmac<sha2::Sha256>` tag of `msg` under `key`; HMAC accepts keys of
/// any length, so `new_from_slice` cannot fail.
#[verifier::external_body]
pub(crate) fn hmac_sha256_bytes(key: &[u8], msg: &[u8]) -> (r: Vec<u8>)
    ensures
        r@ == hmac_sha256(key@, msg@),
{
    let mut mac = <hmac::Hmac<sha2::Sha256> as hmac::Mac>::new_from_slice(key).unwrap();
    mac.update(msg);
    mac.finalize().into_bytes().to_vec()
}

/// `hmac::Hmac<sha1::Sha1>` tag of `msg` under `key`; cannot fail (any key length).
#[verifier::external_body]
pub(crate) fn hmac_sha1_bytes(key: &[u8], msg: &[u8]) -> (r: Vec<u8>)
    ensures
        r@ == hmac_sha1(key@, msg@),
{
    let mut mac = <hmac::Hmac<sha1::Sha1> as hmac::Mac>::new_from_slice(key).unwrap();
    mac.update(msg);
    mac.finalize().into_bytes().to_vec()
}

/// `hex::encode`: lowercase hex, two digits per byte.
#[verifier::external_body]
pub(crate) fn hex_encode(data: &[u8]) -> (r: String)
    ensures
        r@ == hex_lower(data@),
{
    hex::encode(data)
}

/// `base64::engine::general_purpose::STANDARD.encode`: the text is named;
/// it is made of the standard alphabet (letters, digits, `+`, `/`) and `=`
/// padding, is empty only for no bytes, and decodes back to the bytes.
#[verifier::external_body]
pub(crate) fn base64_encode(data: &[u8]) -> (r: String)
    ensures
        r@ == base64_standard(data@),
        forall|i: int| 0 <= i < r@.len() ==> crate::text::is_alnum(#[trigger] r@[i]) || r@[i] == '+' || r@[i] == '/' || r@[i] == '=',
        data@.len() > 0 ==> r@.len() > 0,
        base64_standard_decode(vstd::utf8::encode_utf8(r@)) == Some(data@),
{
    base64::engine::general_purpose::STANDARD.encode(data)
}

/// `base64::engine::general_purpose::STANDARD.decode`, `None` on any decode error.
#[verifier::external_body]
pub(crate) fn base64_decode(text: &[u8]) -> (r: Option<Vec<u8>>)
    ensures
        match r {
            Some(v) => base64_standard_decode(text@) == Some(v@),
            None => base64_standard_decode(text@) is None,
        },
{
    base64::engine::general_purpose::STANDARD.decode(text).ok()
}

/// `uuid::Uuid::new_v4()` in its hyphenated text form (36 characters); the value is random.
#[verifier::external_body]
pub(crate) fn new_uuid_v4() -> (r: String)
    ensures
        r@.len() == 36,
{
    uuid::Uuid::new_v4().to_string()
}

} // verus!
