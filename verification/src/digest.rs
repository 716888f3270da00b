//! Cryptographic digests and message authentication codes.

use hmac::Mac;
use sha1::Digest;
use vstd::prelude::*;

verus! {

/// The SHA-256 digest of bytes.
pub uninterp spec fn sha256_digest(bytes: Seq<u8>) -> Seq<u8>;

/// The SHA-1 digest of bytes.
pub uninterp spec fn sha1_digest(bytes: Seq<u8>) -> Seq<u8>;

/// The HMAC of a message under a key, with SHA-256.
pub uninterp spec fn hmac_sha256_code(key: Seq<u8>, message: Seq<u8>) -> Seq<u8>;

/// The HMAC of a message under a key, with SHA-384.
pub uninterp spec fn hmac_sha384_code(key: Seq<u8>, message: Seq<u8>) -> Seq<u8>;

/// `sha2::Sha256`, made, fed and finalized: the digest of the bytes, which has 32 bytes.
#[verifier::external_body]
pub(crate) fn sha256(bytes: &[u8]) -> (digest: Vec<u8>)
    ensures
        digest@ == sha256_digest(bytes@),
        digest@.len() == 32,
{
    sha2::Sha256::digest(bytes).to_vec()
}

/// `sha1::Sha1`, made, fed and finalized: the digest of the bytes, which has 20 bytes.
#[verifier::external_body]
pub(crate) fn sha1(bytes: &[u8]) -> (digest: Vec<u8>)
    ensures
        digest@ == sha1_digest(bytes@),
        digest@.len() == 20,
{
    sha1::Sha1::digest(bytes).to_vec()
}

/// `hmac::Hmac<sha2::Sha256>`, made from the key, fed the message and finalized: the code, which
/// has 32 bytes. A key of any length will do.
#[verifier::external_body]
pub(crate) fn hmac_sha256(key: &[u8], message: &[u8]) -> (code: Vec<u8>)
    ensures
        code@ == hmac_sha256_code(key@, message@),
        code@.len() == 32,
{
    let mut mac = hmac::Hmac::<sha2::Sha256>::new_from_slice(key).unwrap();
    mac.update(message);
    mac.finalize().into_bytes().to_vec()
}

/// `hmac::Hmac<sha2::Sha384>`, made from the key, fed the message and finalized: the code, which
/// has 48 bytes. A key of any length will do.
#[verifier::external_body]
pub(crate) fn hmac_sha384(key: &[u8], message: &[u8]) -> (code: Vec<u8>)
    ensures
        code@ == hmac_sha384_code(key@, message@),
        code@.len() == 48,
{
    let mut mac = hmac::Hmac::<sha2::Sha384>::new_from_slice(key).unwrap();
    mac.update(message);
    mac.finalize().into_bytes().to_vec()
}

} // verus!
