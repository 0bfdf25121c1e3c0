use vstd::prelude::*;
use hmac::Mac;
use sha2::Digest;

verus! {

/// The SHA-256 digest of a byte string.
pub uninterp spec fn sha256_of(data: Seq<u8>) -> Seq<u8>;

/// The RIPEMD-160 digest of a byte string.
pub uninterp spec fn ripemd160_of(data: Seq<u8>) -> Seq<u8>;

/// The HMAC-SHA-512 authenticator of a byte string under a key.
pub uninterp spec fn hmac_sha512_of(key: Seq<u8>, data: Seq<u8>) -> Seq<u8>;

/// The double-hash message digest: two SHA-256 passes.
pub open spec fn digest_of(data: Seq<u8>) -> Seq<u8> {
    sha256_of(sha256_of(data))
}

/// Relies on sha2::Sha256: a 32-byte digest that depends on the input bytes alone.
#[verifier::external_body]
pub(crate) fn sha256(data: &[u8]) -> (r: Vec<u8>)
    ensures
        r@ == sha256_of(data@),
        r@.len() == 32,
{
    sha2::Sha256::digest(data).to_vec()
}

/// Relies on ripemd::Ripemd160: a 20-byte digest that depends on the input bytes alone.
#[verifier::external_body]
pub(crate) fn ripemd160(data: &[u8]) -> (r: Vec<u8>)
    ensures
        r@ == ripemd160_of(data@),
        r@.len() == 20,
{
    ripemd::Ripemd160::digest(data).to_vec()
}

/// Relies on hmac::Hmac over sha2::Sha512: a 64-byte authenticator that
/// depends on the key and input bytes alone; HMAC accepts keys of any length.
#[verifier::external_body]
pub(crate) fn hmac_sha512(key: &[u8], data: &[u8]) -> (r: Vec<u8>)
    ensures
        r@ == hmac_sha512_of(key@, data@),
        r@.len() == 64,
{
    let mut mac = <hmac::Hmac<sha2::Sha512> as Mac>::new_from_slice(key).unwrap();
    mac.update(data);
    mac.finalize().into_bytes().to_vec()
}

/// The double-hash message digest: `H(H(message))` with SHA-256.
pub fn double_sha256(data: &[u8]) -> (r: Vec<u8>)
    ensures
        r@ == digest_of(data@),
        r@.len() == 32,
{
    let first = sha256(data);
    sha256(first.as_slice())
}

} // verus!
