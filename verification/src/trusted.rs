//! The crate's boundary to outside code: keyed message digests through the
//! `hmac` crate, constant-time equality through `subtle`, and the UTF-8
//! bridge between `String` values and their byte encodings. Each item's
//! contract is believed, not proved; everything else in the crate is
//! verified against these contracts.

use vstd::prelude::*;

use hmac::{KeyInit, Mac};

verus! {

/// The HMAC-MD5 of a message under a key; a function of the two arguments
/// alone.
pub uninterp spec fn hmac_md5_of(key: Seq<u8>, data: Seq<u8>) -> Seq<u8>;

/// The HMAC-SHA-1 of a message under a key.
pub uninterp spec fn hmac_sha1_of(key: Seq<u8>, data: Seq<u8>) -> Seq<u8>;

/// The HMAC-SHA-224 of a message under a key.
pub uninterp spec fn hmac_sha224_of(key: Seq<u8>, data: Seq<u8>) -> Seq<u8>;

/// The HMAC-SHA-256 of a message under a key.
pub uninterp spec fn hmac_sha256_of(key: Seq<u8>, data: Seq<u8>) -> Seq<u8>;

/// The HMAC-SHA-384 of a message under a key.
pub uninterp spec fn hmac_sha384_of(key: Seq<u8>, data: Seq<u8>) -> Seq<u8>;

/// The HMAC-SHA-512 of a message under a key.
pub uninterp spec fn hmac_sha512_of(key: Seq<u8>, data: Seq<u8>) -> Seq<u8>;

/// Relies on hmac::Hmac over md5::Md5: the tag is a function of key and
/// message alone, 16 bytes long; HMAC accepts keys of any length.
#[verifier::external_body]
pub(crate) fn hmac_md5(key: &Vec<u8>, data: &Vec<u8>) -> (r: Vec<u8>)
    ensures
        r@ == hmac_md5_of(key@, data@),
        r@.len() == 16,
{
    let mut mac = hmac::Hmac::<md5::Md5>::new_from_slice(key).expect("any key length is accepted");
    mac.update(data);
    mac.finalize().into_bytes().to_vec()
}

/// Relies on hmac::Hmac over sha1::Sha1: a 20-byte tag, a function of key
/// and message alone.
#[verifier::external_body]
pub(crate) fn hmac_sha1(key: &Vec<u8>, data: &Vec<u8>) -> (r: Vec<u8>)
    ensures
        r@ == hmac_sha1_of(key@, data@),
        r@.len() == 20,
{
    let mut mac = hmac::Hmac::<sha1::Sha1>::new_from_slice(key).expect(
        "any key length is accepted",
    );
    mac.update(data);
    mac.finalize().into_bytes().to_vec()
}

/// Relies on hmac::Hmac over sha2::Sha224: a 28-byte tag, a function of key
/// and message alone.
#[verifier::external_body]
pub(crate) fn hmac_sha224(key: &Vec<u8>, data: &Vec<u8>) -> (r: Vec<u8>)
    ensures
        r@ == hmac_sha224_of(key@, data@),
        r@.len() == 28,
{
    let mut mac = hmac::Hmac::<sha2::Sha224>::new_from_slice(key).expect(
        "any key length is accepted",
    );
    mac.update(data);
    mac.finalize().into_bytes().to_vec()
}

/// Relies on hmac::Hmac over sha2::Sha256: a 32-byte tag, a function of key
/// and message alone.
#[verifier::external_body]
pub(crate) fn hmac_sha256(key: &Vec<u8>, data: &Vec<u8>) -> (r: Vec<u8>)
    ensures
        r@ == hmac_sha256_of(key@, data@),
        r@.len() == 32,
{
    let mut mac = hmac::Hmac::<sha2::Sha256>::new_from_slice(key).expect(
        "any key length is accepted",
    );
    mac.update(data);
    mac.finalize().into_bytes().to_vec()
}

/// Relies on hmac::Hmac over sha2::Sha384: a 48-byte tag, a function of key
/// and message alone.
#[verifier::external_body]
pub(crate) fn hmac_sha384(key: &Vec<u8>, data: &Vec<u8>) -> (r: Vec<u8>)
    ensures
        r@ == hmac_sha384_of(key@, data@),
        r@.len() == 48,
{
    let mut mac = hmac::Hmac::<sha2::Sha384>::new_from_slice(key).expect(
        "any key length is accepted",
    );
    mac.update(data);
    mac.finalize().into_bytes().to_vec()
}

/// Relies on hmac::Hmac over sha2::Sha512: a 64-byte tag, a function of key
/// and message alone.
#[verifier::external_body]
pub(crate) fn hmac_sha512(key: &Vec<u8>, data: &Vec<u8>) -> (r: Vec<u8>)
    ensures
        r@ == hmac_sha512_of(key@, data@),
        r@.len() == 64,
{
    let mut mac = hmac::Hmac::<sha2::Sha512>::new_from_slice(key).expect(
        "any key length is accepted",
    );
    mac.update(data);
    mac.finalize().into_bytes().to_vec()
}

/// Relies on subtle::ConstantTimeEq for byte slices: the answer is exactly
/// byte equality, computed without data-dependent timing.
#[verifier::external_body]
pub(crate) fn bytes_ct_eq(a: &Vec<u8>, b: &Vec<u8>) -> (r: bool)
    ensures
        r == (a@ == b@),
{
    bool::from(subtle::ConstantTimeEq::ct_eq(a.as_slice(), b.as_slice()))
}

/// Relies on str::as_bytes: a String holds exactly the UTF-8 encoding of
/// its characters.
#[verifier::external_body]
pub(crate) fn string_to_utf8(s: &String) -> (r: Vec<u8>)
    ensures
        r@ == vstd::utf8::encode_utf8(s@),
{
    s.as_bytes().to_vec()
}

/// Relies on String::from_utf8: succeeds exactly on valid UTF-8 input and
/// returns the string those bytes encode.
#[verifier::external_body]
pub(crate) fn string_from_utf8(b: Vec<u8>) -> (r: Option<String>)
    ensures
        match r {
            Some(s) => vstd::utf8::valid_utf8(b@) && s@ == vstd::utf8::decode_utf8(b@),
            None => !vstd::utf8::valid_utf8(b@),
        },
{
    match String::from_utf8(b) {
        Ok(s) => Some(s),
        Err(_) => None,
    }
}

/// Relies on char::from_u32: succeeds exactly on Unicode scalar values and
/// returns the character with that value.
#[verifier::external_body]
pub(crate) fn char_from_u32(v: u32) -> (r: Option<char>)
    ensures
        match r {
            Some(c) => vstd::utf8::is_scalar(v) && c == (v as char),
            None => !vstd::utf8::is_scalar(v),
        },
{
    char::from_u32(v)
}

} // verus!
