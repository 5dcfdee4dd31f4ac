//! Cryptographic signing of the canonical base string, through openssl, and
//! base64 encoding of the raw signature, through rustc-serialize.  Each
//! outside call sits behind one trusted declaration; the signatures and the
//! base64 text are named functions of the inputs alone, since both
//! operations are deterministic.

use vstd::prelude::*;
use rustc_serialize::base64::ToBase64;
use crate::oauth::Error;

verus! {

/// The RSA-SHA1 signature (PKCS#1 v1.5) of a message under the private key
/// written in the given PEM text.
pub uninterp spec fn rsa_sha1_signature(key_pem: Seq<u8>, message: Seq<u8>) -> Seq<u8>;

/// Relies on openssl: `PKey::private_key_from_pem` reads the key, and
/// `sign::Signer` with `MessageDigest::sha1` signs the message
/// (`EVP_DigestSign`, which for an RSA key applies PKCS#1 v1.5 padding —
/// a deterministic function of key and message).  A PEM text that does
/// not parse, or that holds a key of any other type (`PKeyRef::id`) —
/// whose signature schemes are randomized — gives `InvalidKey`; any
/// failure of the signing context gives `SigningFailure`.
#[verifier::external_body]
pub(crate) fn rsa_sha1_sign(key_pem: &[u8], message: &[u8]) -> (r: Result<Vec<u8>, Error>)
    ensures
        r matches Ok(sig) ==> sig@ == rsa_sha1_signature(key_pem@, message@),
        r matches Err(e) ==> e == Error::InvalidKey || e == Error::SigningFailure,
{
    let key = match openssl::pkey::PKey::private_key_from_pem(key_pem) {
        Ok(k) if k.id() == openssl::pkey::Id::RSA => k,
        _ => return Err(Error::InvalidKey),
    };
    let mut signer = match openssl::sign::Signer::new(openssl::hash::MessageDigest::sha1(), &key) {
        Ok(s) => s,
        Err(_) => return Err(Error::SigningFailure),
    };
    match signer.sign_oneshot_to_vec(message) {
        Ok(sig) => Ok(sig),
        Err(_) => Err(Error::SigningFailure),
    }
}

/// The HMAC-SHA1 code of a message under the given key bytes.
pub uninterp spec fn hmac_sha1_mac(key: Seq<u8>, message: Seq<u8>) -> Seq<u8>;

/// Relies on openssl: `PKey::hmac` wraps the key bytes and `sign::Signer`
/// with `MessageDigest::sha1` computes the HMAC-SHA1 code, a deterministic
/// function of key and message.  Any failure gives `SigningFailure`.
/// `PKey::hmac` asserts that the key fits a C `int`, so keys that long are
/// excluded here.
#[verifier::external_body]
pub(crate) fn hmac_sha1_sign(key: &[u8], message: &[u8]) -> (r: Result<Vec<u8>, Error>)
    requires
        key@.len() <= 0x7fffffff,
    ensures
        r matches Ok(mac) ==> mac@ == hmac_sha1_mac(key@, message@),
        r matches Err(e) ==> e == Error::SigningFailure,
{
    let key = match openssl::pkey::PKey::hmac(key) {
        Ok(k) => k,
        Err(_) => return Err(Error::SigningFailure),
    };
    let mut signer = match openssl::sign::Signer::new(openssl::hash::MessageDigest::sha1(), &key) {
        Ok(s) => s,
        Err(_) => return Err(Error::SigningFailure),
    };
    match signer.sign_oneshot_to_vec(message) {
        Ok(mac) => Ok(mac),
        Err(_) => Err(Error::SigningFailure),
    }
}

/// The RFC 4648 base64 text of a byte sequence, `=`-padded, without line
/// breaks.
pub uninterp spec fn base64_of(bytes: Seq<u8>) -> Seq<char>;

/// True of the characters standard base64 text is drawn from: the
/// alphabet and the `=` padding.
pub open spec fn is_base64_char(c: char) -> bool {
    (0x41 <= (c as u32) && (c as u32) <= 0x5a)  // A-Z
    || (0x61 <= (c as u32) && (c as u32) <= 0x7a)  // a-z
    || (0x30 <= (c as u32) && (c as u32) <= 0x39)  // 0-9
    || c == '+' || c == '/' || c == '='
}

/// Relies on rustc-serialize's `ToBase64` with the `STANDARD` config:
/// standard alphabet, `=` padding, no line wrapping — a deterministic
/// function of the bytes, four characters for every three bytes begun.
#[verifier::external_body]
pub(crate) fn to_base64(bytes: &[u8]) -> (r: String)
    ensures
        r@ == base64_of(bytes@),
        r@.len() == 4 * ((bytes@.len() + 2) / 3),
        forall|i: int| 0 <= i < r@.len() ==> is_base64_char(#[trigger] r@[i]),
{
    bytes.to_base64(rustc_serialize::base64::STANDARD)
}

} // verus!
