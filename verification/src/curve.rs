use vstd::prelude::*;
use crate::bytesutil::{be_nat, nat_to_be_bytes};

verus! {

/// The order of the secp256k1 group: the upper half of its big-endian form
/// shifted past sixteen low bytes, plus the lower half.
pub open spec fn curve_order() -> nat {
    (0xFFFFFFFF_FFFFFFFF_FFFFFFFF_FFFFFFFE as nat) * (0x1_0000_0000_0000_0000 as nat) * (
    0x1_0000_0000_0000_0000 as nat) + (0xBAAEDCE6_AF48A03B_BFD25E8C_D0364140 as nat)
}

/// A byte string that is a valid secret scalar: 32 bytes, nonzero, below the order.
pub open spec fn scalar_in_range(s: Seq<u8>) -> bool {
    s.len() == 32 && 0 < be_nat(s) && be_nat(s) < curve_order()
}

/// The compressed public point of a secret scalar.
pub uninterp spec fn point_of_scalar(s: Seq<u8>) -> Seq<u8>;

/// The compressed point `p + t * G`, or `None` when `p` does not decode,
/// `t` is not below the order, or the sum is the point at infinity.
pub uninterp spec fn point_plus_tweak(p: Seq<u8>, t: Seq<u8>) -> Option<Seq<u8>>;

/// Whether 33 bytes decode as a compressed curve point.
pub uninterp spec fn point_decodes(p: Seq<u8>) -> bool;

/// The compact ECDSA signature over a digest by a secret scalar.
pub uninterp spec fn ecdsa_sign_of(digest: Seq<u8>, key: Seq<u8>) -> Seq<u8>;

/// Whether a compact signature verifies over a digest against a compressed point.
pub uninterp spec fn ecdsa_verify_ok(digest: Seq<u8>, sig: Seq<u8>, point: Seq<u8>) -> bool;

/// The order is below the largest 32-byte value.
pub proof fn lemma_order_below_pow256_32()
    ensures
        curve_order() < crate::bytesutil::pow256(32),
{
    reveal_with_fuel(crate::bytesutil::pow256, 33);
}

/// The canonical 32-byte encoding of a nonzero value below the order is a
/// valid secret scalar, and reads back as that value.
pub proof fn lemma_scalar_bytes_in_range(x: nat)
    requires
        0 < x < curve_order(),
    ensures
        scalar_in_range(nat_to_be_bytes(x, 32)),
        be_nat(nat_to_be_bytes(x, 32)) == x,
{
    lemma_order_below_pow256_32();
    crate::bytesutil::lemma_nat_to_be_bytes_len(x, 32);
    crate::bytesutil::lemma_be_nat_of_nat_to_be_bytes(x, 32);
}

/// Relies on secp256k1::SecretKey::from_secret_bytes, which accepts exactly
/// the 32-byte values that are nonzero and below the curve order.
#[verifier::external_body]
pub(crate) fn scalar_is_valid(s: &[u8]) -> (r: bool)
    requires
        s@.len() == 32,
    ensures
        r == scalar_in_range(s@),
{
    secp256k1::SecretKey::from_secret_bytes(<[u8; 32]>::try_from(s).unwrap()).is_ok()
}

/// Relies on secp256k1::PublicKey::from_secret_key and serialize: the
/// compressed public point is a function of the secret scalar alone.
#[verifier::external_body]
pub(crate) fn pubkey_from_scalar(s: &[u8]) -> (r: Vec<u8>)
    requires
        scalar_in_range(s@),
    ensures
        r@ == point_of_scalar(s@),
        r@.len() == 33,
{
    let sk = secp256k1::SecretKey::from_secret_bytes(<[u8; 32]>::try_from(s).unwrap()).unwrap();
    secp256k1::PublicKey::from_secret_key(&sk).serialize().to_vec()
}

/// Relies on secp256k1::SecretKey::add_tweak (addition modulo the curve
/// order, failing only on a zero result) and on Scalar::from_be_bytes,
/// which accepts exactly the values below the order.
#[verifier::external_body]
pub(crate) fn scalar_tweak_add(s: &[u8], t: &[u8]) -> (r: Option<Vec<u8>>)
    requires
        scalar_in_range(s@),
        t@.len() == 32,
    ensures
        (match r {
            Some(v) => be_nat(t@) < curve_order() && (be_nat(s@) + be_nat(t@)) % curve_order() != 0
                && v@ == nat_to_be_bytes((be_nat(s@) + be_nat(t@)) % curve_order(), 32),
            None => be_nat(t@) >= curve_order() || (be_nat(s@) + be_nat(t@)) % curve_order() == 0,
        }),
{
    let sk = secp256k1::SecretKey::from_secret_bytes(<[u8; 32]>::try_from(s).unwrap()).unwrap();
    let tw = match secp256k1::scalar::Scalar::from_be_bytes(<[u8; 32]>::try_from(t).unwrap()) {
        Ok(tw) => tw,
        Err(_) => return None,
    };
    match sk.add_tweak(&tw) {
        Ok(out) => Some(out.to_secret_bytes().to_vec()),
        Err(_) => None,
    }
}

/// Relies on secp256k1::PublicKey::add_exp_tweak, which adds `t * G` to the
/// point; from_byte_array_compressed screens point bytes that do not decode.
#[verifier::external_body]
pub(crate) fn point_tweak_add(p: &[u8], t: &[u8]) -> (r: Option<Vec<u8>>)
    requires
        p@.len() == 33,
        t@.len() == 32,
    ensures
        point_plus_tweak(p@, t@) == (match r {
            Some(v) => Some(v@),
            None => None::<Seq<u8>>,
        }),
        r matches Some(v) ==> v@.len() == 33,
{
    let pk = match secp256k1::PublicKey::from_byte_array_compressed(
        <[u8; 33]>::try_from(p).unwrap(),
    ) {
        Ok(pk) => pk,
        Err(_) => return None,
    };
    let tw = match secp256k1::scalar::Scalar::from_be_bytes(<[u8; 32]>::try_from(t).unwrap()) {
        Ok(tw) => tw,
        Err(_) => return None,
    };
    match pk.add_exp_tweak(&tw) {
        Ok(out) => Some(out.serialize().to_vec()),
        Err(_) => None,
    }
}

/// Relies on secp256k1::PublicKey::from_byte_array_compressed: accepts
/// exactly the 33-byte encodings of curve points.
#[verifier::external_body]
pub(crate) fn point_parses(p: &[u8]) -> (r: bool)
    requires
        p@.len() == 33,
    ensures
        r == point_decodes(p@),
{
    secp256k1::PublicKey::from_byte_array_compressed(<[u8; 33]>::try_from(p).unwrap()).is_ok()
}

/// Relies on secp256k1::ecdsa::sign with its RFC6979 nonce: the compact
/// signature is a function of the digest and the key alone.
#[verifier::external_body]
pub(crate) fn ecdsa_sign(digest: &[u8], key: &[u8]) -> (r: Vec<u8>)
    requires
        digest@.len() == 32,
        scalar_in_range(key@),
    ensures
        r@ == ecdsa_sign_of(digest@, key@),
        r@.len() == 64,
{
    let sk = secp256k1::SecretKey::from_secret_bytes(<[u8; 32]>::try_from(key).unwrap()).unwrap();
    let msg = secp256k1::Message::from_digest(<[u8; 32]>::try_from(digest).unwrap());
    secp256k1::ecdsa::sign(msg, &sk).serialize_compact().to_vec()
}

/// Relies on secp256k1::ecdsa::verify: deterministic in its three inputs; a
/// 64-byte string whose halves are not a valid `(r, s)` pair, or point
/// bytes that do not decode, verify nothing.
#[verifier::external_body]
pub(crate) fn ecdsa_verify(digest: &[u8], sig: &[u8], point: &[u8]) -> (r: bool)
    requires
        digest@.len() == 32,
        sig@.len() == 64,
        point@.len() == 33,
    ensures
        r == ecdsa_verify_ok(digest@, sig@, point@),
{
    let msg = secp256k1::Message::from_digest(<[u8; 32]>::try_from(digest).unwrap());
    let s = match secp256k1::ecdsa::Signature::from_compact(sig) {
        Ok(s) => s,
        Err(_) => return false,
    };
    let pk = match secp256k1::PublicKey::from_byte_array_compressed(
        <[u8; 33]>::try_from(point).unwrap(),
    ) {
        Ok(pk) => pk,
        Err(_) => return false,
    };
    secp256k1::ecdsa::verify(&s, msg, &pk).is_ok()
}

} // verus!
