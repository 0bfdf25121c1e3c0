use vstd::prelude::*;
use crate::address::{address_from_point, decode_address, kaspa_address_of, spec_address_of_point};
use crate::bytesutil::append_bytes;
use crate::curve::{ecdsa_sign, ecdsa_sign_of, ecdsa_verify, ecdsa_verify_ok, point_of_scalar,
    pubkey_from_scalar, scalar_in_range};
use crate::errors::KeyError;
use crate::hashes::{digest_of, double_sha256};
use crate::hexcodec::{hex_decode, hex_encode, hex_of, hex_vals, valid_hex};
use crate::keys::{master_from_seed, derive_path_private, spec_derive_path_private,
    spec_master_from_seed, xprv_wf, ExtendedPrivateKey, XPrvView};
use crate::path::{path_wf, DerivationPath, PathSegment};

verus! {

/// Signs a message: the compact ECDSA signature over the double-hash
/// digest, as fixed-length hex text.  A scalar that is no valid secret key
/// is refused.
pub fn sign_message(message: &[u8], private_scalar: &[u8]) -> (r: Result<String, KeyError>)
    ensures
        (match r {
            Ok(s) => scalar_in_range(private_scalar@) && s@ == hex_of(
                ecdsa_sign_of(digest_of(message@), private_scalar@),
            ),
            Err(e) => !scalar_in_range(private_scalar@) && e == KeyError::InvalidSigningKey,
        }),
{
    if private_scalar.len() != 32 {
        return Err(KeyError::InvalidSigningKey);
    }
    if !crate::curve::scalar_is_valid(private_scalar) {
        return Err(KeyError::InvalidSigningKey);
    }
    let d = double_sha256(message);
    let sig = ecdsa_sign(d.as_slice(), private_scalar);
    Ok(hex_encode(sig.as_slice()))
}

/// Whether a signature verifies against either reconstruction of an x-only
/// public key: the even-parity and the odd-parity candidate are both tried,
/// because an address keeps no parity.
pub open spec fn spec_verify_x_only(digest: Seq<u8>, sig: Seq<u8>, x: Seq<u8>) -> bool {
    ecdsa_verify_ok(digest, sig, seq![2u8] + x) || ecdsa_verify_ok(digest, sig, seq![3u8] + x)
}

/// Verifies a signature against an x-only public key, trying both parities.
/// An x-coordinate that lies on no curve point verifies nothing, without error.
pub fn verify_with_x_only_pubkey(digest: &[u8], sig: &[u8], x: &[u8]) -> (r: bool)
    requires
        digest@.len() == 32,
        sig@.len() == 64,
        x@.len() == 32,
    ensures
        r == spec_verify_x_only(digest@, sig@, x@),
{
    let mut even: Vec<u8> = Vec::new();
    even.push(0x02);
    append_bytes(&mut even, x);
    proof {
        assert(even@ =~= seq![2u8] + x@);
    }
    if ecdsa_verify(digest, sig, even.as_slice()) {
        return true;
    }
    let mut odd: Vec<u8> = Vec::new();
    odd.push(0x03);
    append_bytes(&mut odd, x);
    proof {
        assert(odd@ =~= seq![3u8] + x@);
    }
    ecdsa_verify(digest, sig, odd.as_slice())
}

/// Verifies a hex signature over a message against the address said to have
/// signed it.  The signature must be 128 hex digits; a mismatch is a `false`
/// result, never an error.
pub fn verify_signature(message: &[u8], signature_hex: &str, address: &str) -> (r: Result<
    bool,
    KeyError,
>)
    ensures
        forall|p: Seq<u8>|
            p.len() == 32 && kaspa_address_of(p) == address@ ==> r == (
            if valid_hex(signature_hex@) && hex_vals(signature_hex@).len() == 64 {
                Ok::<bool, KeyError>(
                    spec_verify_x_only(digest_of(message@), hex_vals(signature_hex@), p),
                )
            } else {
                Err::<bool, KeyError>(KeyError::MalformedSignature)
            }),
        r == Err::<bool, KeyError>(KeyError::MalformedAddress) ==> forall|p: Seq<u8>|
            p.len() == 32 ==> kaspa_address_of(p) != address@,
        r matches Err(e) ==> e == KeyError::MalformedAddress || e == KeyError::MalformedSignature,
{
    let payload = match decode_address(address) {
        Some(p) => p,
        None => {
            return Err(KeyError::MalformedAddress);
        },
    };
    let sigbytes = match hex_decode(signature_hex) {
        Some(v) => v,
        None => {
            return Err(KeyError::MalformedSignature);
        },
    };
    if sigbytes.len() != 64 {
        return Err(KeyError::MalformedSignature);
    }
    let d = double_sha256(message);
    Ok(verify_with_x_only_pubkey(d.as_slice(), sigbytes.as_slice(), payload.as_slice()))
}

/// The account-level derivation path the signing flow uses.
pub open spec fn spec_account_path() -> Seq<PathSegment> {
    seq![
        PathSegment { index: 44, hardened: true },
        PathSegment { index: 111111, hardened: true },
        PathSegment { index: 0, hardened: true },
    ]
}

/// The full derivation path of the signing key.
pub open spec fn spec_signing_path() -> Seq<PathSegment> {
    spec_account_path() + seq![
        PathSegment { index: 0, hardened: false },
        PathSegment { index: 0, hardened: false },
    ]
}

/// The signing key a seed determines: the master key walked down the fixed
/// signing path.
pub open spec fn spec_signing_key(seed: Seq<u8>) -> Result<XPrvView, KeyError> {
    match spec_master_from_seed(seed) {
        Ok(m) => spec_derive_path_private(m, spec_signing_path()),
        Err(e) => Err(e),
    }
}

/// Derives the signing key of a seed and the address that goes with it.
pub fn derive_kaspa_key_and_address(seed: &[u8]) -> (r: Result<
    (ExtendedPrivateKey, String),
    KeyError,
>)
    ensures
        (match r {
            Ok(ka) => spec_signing_key(seed@) == Ok::<XPrvView, KeyError>(ka.0@)
                && spec_address_of_point(point_of_scalar(ka.0@.scalar)) == Ok::<
                Seq<char>,
                KeyError,
            >(ka.1@) && xprv_wf(ka.0@),
            Err(e) => spec_signing_key(seed@) == Err::<XPrvView, KeyError>(e) || (
            exists|k: XPrvView|
                spec_signing_key(seed@) == Ok::<XPrvView, KeyError>(k)
                    && spec_address_of_point(point_of_scalar(k.scalar)) == Err::<
                    Seq<char>,
                    KeyError,
                >(e)),
        }),
{
    let master = match master_from_seed(seed) {
        Ok(m) => m,
        Err(e) => {
            return Err(e);
        },
    };
    let mut segs: Vec<PathSegment> = Vec::new();
    segs.push(PathSegment { index: 44, hardened: true });
    segs.push(PathSegment { index: 111111, hardened: true });
    segs.push(PathSegment { index: 0, hardened: true });
    segs.push(PathSegment { index: 0, hardened: false });
    segs.push(PathSegment { index: 0, hardened: false });
    proof {
        assert(segs@ =~= spec_signing_path());
        assert(path_wf(segs@));
    }
    let path = DerivationPath { segments: segs };
    let key = match derive_path_private(&master, &path) {
        Ok(k) => k,
        Err(e) => {
            return Err(e);
        },
    };
    let point = pubkey_from_scalar(key.scalar.as_slice());
    match address_from_point(point.as_slice()) {
        Ok(addr) => Ok((key, addr)),
        Err(e) => Err(e),
    }
}

/// Derives the account-level extended public key a seed determines: the
/// private account key's public half, fit to hand to the address search.
pub fn create_extended_public_key(master: &ExtendedPrivateKey) -> (r: Result<
    crate::keys::ExtendedPublicKey,
    KeyError,
>)
    requires
        xprv_wf(master@),
    ensures
        (match r {
            Ok(x) => (match spec_derive_path_private(master@, spec_account_path()) {
                Ok(a) => x@ == crate::keys::spec_public_of_private(a) && crate::keys::xpub_wf(x@),
                Err(_) => false,
            }),
            Err(e) => spec_derive_path_private(master@, spec_account_path()) == Err::<
                XPrvView,
                KeyError,
            >(e),
        }),
{
    let mut segs: Vec<PathSegment> = Vec::new();
    segs.push(PathSegment { index: 44, hardened: true });
    segs.push(PathSegment { index: 111111, hardened: true });
    segs.push(PathSegment { index: 0, hardened: true });
    proof {
        assert(segs@ =~= spec_account_path());
        assert(path_wf(segs@));
    }
    let path = DerivationPath { segments: segs };
    match derive_path_private(master, &path) {
        Ok(account) => Ok(crate::keys::public_from_private(&account)),
        Err(e) => Err(e),
    }
}

} // verus!
