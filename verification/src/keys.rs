use vstd::prelude::*;
use crate::bytesutil::{append_bytes, be32_bytes, be_nat, clone_bytes, copy_range, nat_to_be_bytes,
    write_be_u32};
use crate::curve::{curve_order, lemma_scalar_bytes_in_range, point_of_scalar, point_plus_tweak,
    point_tweak_add, pubkey_from_scalar, scalar_in_range, scalar_is_valid, scalar_tweak_add};
use crate::errors::KeyError;
use crate::hashes::{hmac_sha512, hmac_sha512_of, ripemd160, ripemd160_of, sha256, sha256_of};
use crate::path::{path_wf, segment_wf, DerivationPath, PathSegment};

verus! {

/// An extended private key: secret scalar, chain code, and position metadata.
#[derive(Debug, PartialEq, Eq)]
pub struct ExtendedPrivateKey {
    pub scalar: Vec<u8>,
    pub chain_code: Vec<u8>,
    pub depth: u8,
    pub parent_fingerprint: Vec<u8>,
    pub child_number: u32,
}

/// An extended public key: compressed point, chain code, and position metadata.
#[derive(Debug, PartialEq, Eq)]
pub struct ExtendedPublicKey {
    pub point: Vec<u8>,
    pub chain_code: Vec<u8>,
    pub depth: u8,
    pub parent_fingerprint: Vec<u8>,
    pub child_number: u32,
}

/// The mathematical shadow of an extended private key.
pub ghost struct XPrvView {
    pub scalar: Seq<u8>,
    pub chain_code: Seq<u8>,
    pub depth: u8,
    pub parent_fingerprint: Seq<u8>,
    pub child_number: u32,
}

/// The mathematical shadow of an extended public key.
pub ghost struct XPubView {
    pub point: Seq<u8>,
    pub chain_code: Seq<u8>,
    pub depth: u8,
    pub parent_fingerprint: Seq<u8>,
    pub child_number: u32,
}

impl View for ExtendedPrivateKey {
    type V = XPrvView;

    open spec fn view(&self) -> XPrvView {
        XPrvView {
            scalar: self.scalar@,
            chain_code: self.chain_code@,
            depth: self.depth,
            parent_fingerprint: self.parent_fingerprint@,
            child_number: self.child_number,
        }
    }
}

impl View for ExtendedPublicKey {
    type V = XPubView;

    open spec fn view(&self) -> XPubView {
        XPubView {
            point: self.point@,
            chain_code: self.chain_code@,
            depth: self.depth,
            parent_fingerprint: self.parent_fingerprint@,
            child_number: self.child_number,
        }
    }
}

impl Clone for ExtendedPrivateKey {
    /// An equal copy.
    fn clone(&self) -> (r: Self)
        ensures
            r@ == self@,
    {
        ExtendedPrivateKey {
            scalar: clone_bytes(&self.scalar),
            chain_code: clone_bytes(&self.chain_code),
            depth: self.depth,
            parent_fingerprint: clone_bytes(&self.parent_fingerprint),
            child_number: self.child_number,
        }
    }
}

impl Clone for ExtendedPublicKey {
    /// An equal copy.
    fn clone(&self) -> (r: Self)
        ensures
            r@ == self@,
    {
        ExtendedPublicKey {
            point: clone_bytes(&self.point),
            chain_code: clone_bytes(&self.chain_code),
            depth: self.depth,
            parent_fingerprint: clone_bytes(&self.parent_fingerprint),
            child_number: self.child_number,
        }
    }
}

/// A well-formed private key: valid scalar, 32-byte chain code, 4-byte fingerprint.
pub open spec fn xprv_wf(k: XPrvView) -> bool {
    scalar_in_range(k.scalar) && k.chain_code.len() == 32 && k.parent_fingerprint.len() == 4
}

/// A well-formed public key: 33-byte point, 32-byte chain code, 4-byte fingerprint.
pub open spec fn xpub_wf(k: XPubView) -> bool {
    k.point.len() == 33 && k.chain_code.len() == 32 && k.parent_fingerprint.len() == 4
}

/// The first four bytes of RIPEMD-160 over SHA-256 of a public point.
pub open spec fn fingerprint_of(point: Seq<u8>) -> Seq<u8> {
    ripemd160_of(sha256_of(point)).take(4)
}

/// The four-byte fingerprint of a public point.
pub fn key_fingerprint(point: &[u8]) -> (r: Vec<u8>)
    ensures
        r@ == fingerprint_of(point@),
        r@.len() == 4,
{
    let s = sha256(point);
    let h = ripemd160(s.as_slice());
    let r = copy_range(h.as_slice(), 0, 4);
    proof {
        assert(r@ =~= ripemd160_of(sha256_of(point@)).take(4));
    }
    r
}

/// The fixed HMAC key that stretches a seed into master key material.
pub open spec fn master_hmac_key() -> Seq<u8> {
    seq![0x42u8, 0x69u8, 0x74u8, 0x63u8, 0x6Fu8, 0x69u8, 0x6Eu8, 0x20u8, 0x73u8, 0x65u8, 0x65u8,
        0x64u8]
}

/// What master-key generation returns for a seed: the seed is stretched by
/// HMAC-SHA-512 under a fixed key; the left half must be a valid scalar and
/// becomes the root secret, the right half becomes the chain code.
pub open spec fn spec_master_from_seed(seed: Seq<u8>) -> Result<XPrvView, KeyError> {
    if seed.len() < 16 || seed.len() > 64 {
        Err(KeyError::InvalidSeedLength)
    } else {
        let stretched = hmac_sha512_of(master_hmac_key(), seed);
        let il = stretched.subrange(0, 32);
        let ir = stretched.subrange(32, 64);
        if !scalar_in_range(il) {
            Err(KeyError::InvalidMasterKey)
        } else {
            Ok(
                XPrvView {
                    scalar: il,
                    chain_code: ir,
                    depth: 0,
                    parent_fingerprint: seq![0u8, 0u8, 0u8, 0u8],
                    child_number: 0,
                },
            )
        }
    }
}

/// Creates the root extended private key of a seed.
pub fn master_from_seed(seed: &[u8]) -> (r: Result<ExtendedPrivateKey, KeyError>)
    ensures
        (match r {
            Ok(k) => spec_master_from_seed(seed@) == Ok::<XPrvView, KeyError>(k@) && xprv_wf(k@),
            Err(e) => spec_master_from_seed(seed@) == Err::<XPrvView, KeyError>(e),
        }),
{
    if seed.len() < 16 || seed.len() > 64 {
        return Err(KeyError::InvalidSeedLength);
    }
    let key: Vec<u8> = vec![0x42u8, 0x69, 0x74, 0x63, 0x6F, 0x69, 0x6E, 0x20, 0x73, 0x65, 0x65,
        0x64];
    proof {
        assert(key@ =~= master_hmac_key());
    }
    let stretched = hmac_sha512(key.as_slice(), seed);
    let il = copy_range(stretched.as_slice(), 0, 32);
    let ir = copy_range(stretched.as_slice(), 32, 64);
    if !scalar_is_valid(il.as_slice()) {
        return Err(KeyError::InvalidMasterKey);
    }
    let fp: Vec<u8> = vec![0u8, 0, 0, 0];
    proof {
        assert(fp@ =~= seq![0u8, 0u8, 0u8, 0u8]);
    }
    Ok(
        ExtendedPrivateKey {
            scalar: il,
            chain_code: ir,
            depth: 0,
            parent_fingerprint: fp,
            child_number: 0,
        },
    )
}

/// The stored child number: the index, with the hardened flag set when asked.
pub open spec fn child_number_of(index: u32, hardened: bool) -> u32 {
    if hardened {
        (index + 0x8000_0000) as u32
    } else {
        index
    }
}

/// The bytes a private derivation step authenticates: a zero byte and the
/// parent scalar when hardened, the parent public point otherwise, then the
/// child number.
pub open spec fn spec_private_mac_data(p: XPrvView, cn: u32, hardened: bool) -> Seq<u8> {
    if hardened {
        seq![0u8] + p.scalar + be32_bytes(cn as nat)
    } else {
        point_of_scalar(p.scalar) + be32_bytes(cn as nat)
    }
}

/// What one private derivation step returns: the left half of the
/// authenticator is added to the parent scalar modulo the curve order, the
/// right half becomes the chain code; the step fails when the left half is
/// out of range or the sum vanishes.
pub open spec fn spec_derive_child_private(p: XPrvView, index: u32, hardened: bool) -> Result<
    XPrvView,
    KeyError,
> {
    let cn = child_number_of(index, hardened);
    let stretched = hmac_sha512_of(p.chain_code, spec_private_mac_data(p, cn, hardened));
    let il = stretched.subrange(0, 32);
    let ir = stretched.subrange(32, 64);
    if p.depth == 0xFF {
        Err(KeyError::DepthExceeded)
    } else if be_nat(il) >= curve_order() || (be_nat(p.scalar) + be_nat(il)) % curve_order()
        == 0 {
        Err(KeyError::InvalidChildKey)
    } else {
        Ok(
            XPrvView {
                scalar: nat_to_be_bytes((be_nat(p.scalar) + be_nat(il)) % curve_order(), 32),
                chain_code: ir,
                depth: (p.depth + 1) as u8,
                parent_fingerprint: fingerprint_of(point_of_scalar(p.scalar)),
                child_number: cn,
            },
        )
    }
}

/// Derives one child along the private chain.
pub fn derive_child_private(parent: &ExtendedPrivateKey, index: u32, hardened: bool) -> (r: Result<
    ExtendedPrivateKey,
    KeyError,
>)
    requires
        xprv_wf(parent@),
        index < 0x8000_0000,
    ensures
        (match r {
            Ok(k) => spec_derive_child_private(parent@, index, hardened) == Ok::<
                XPrvView,
                KeyError,
            >(k@) && xprv_wf(k@),
            Err(e) => spec_derive_child_private(parent@, index, hardened) == Err::<
                XPrvView,
                KeyError,
            >(e),
        }),
{
    let cn: u32 = if hardened {
        index + 0x8000_0000
    } else {
        index
    };
    let pubkey = pubkey_from_scalar(parent.scalar.as_slice());
    let mut data: Vec<u8> = Vec::new();
    if hardened {
        data.push(0x00);
        append_bytes(&mut data, parent.scalar.as_slice());
    } else {
        append_bytes(&mut data, pubkey.as_slice());
    }
    let cnb = write_be_u32(cn);
    append_bytes(&mut data, cnb.as_slice());
    proof {
        assert(data@ =~= spec_private_mac_data(parent@, cn, hardened));
    }
    let stretched = hmac_sha512(parent.chain_code.as_slice(), data.as_slice());
    let il = copy_range(stretched.as_slice(), 0, 32);
    let ir = copy_range(stretched.as_slice(), 32, 64);
    if parent.depth == 0xFF {
        return Err(KeyError::DepthExceeded);
    }
    match scalar_tweak_add(parent.scalar.as_slice(), il.as_slice()) {
        Some(child_scalar) => {
            proof {
                lemma_scalar_bytes_in_range(
                    (be_nat(parent@.scalar) + be_nat(il@)) % curve_order(),
                );
            }
            let fp = key_fingerprint(pubkey.as_slice());
            Ok(
                ExtendedPrivateKey {
                    scalar: child_scalar,
                    chain_code: ir,
                    depth: parent.depth + 1,
                    parent_fingerprint: fp,
                    child_number: cn,
                },
            )
        },
        None => Err(KeyError::InvalidChildKey),
    }
}

/// The bytes a public derivation step authenticates: the parent point, then
/// the child number.
pub open spec fn spec_public_mac_data(p: XPubView, index: u32) -> Seq<u8> {
    p.point + be32_bytes(index as nat)
}

/// What one public derivation step returns: hardened indices are refused
/// outright; otherwise the left half of the authenticator, scaled onto the
/// generator, is added to the parent point, and the right half becomes the
/// chain code.
pub open spec fn spec_derive_child_public(p: XPubView, index: u32) -> Result<XPubView, KeyError> {
    if index >= 0x8000_0000 {
        Err(KeyError::HardenedFromPublicOnly)
    } else if p.depth == 0xFF {
        Err(KeyError::DepthExceeded)
    } else {
        let stretched = hmac_sha512_of(p.chain_code, spec_public_mac_data(p, index));
        let il = stretched.subrange(0, 32);
        let ir = stretched.subrange(32, 64);
        match point_plus_tweak(p.point, il) {
            Some(pt) => Ok(
                XPubView {
                    point: pt,
                    chain_code: ir,
                    depth: (p.depth + 1) as u8,
                    parent_fingerprint: fingerprint_of(p.point),
                    child_number: index,
                },
            ),
            None => Err(KeyError::InvalidChildKey),
        }
    }
}

/// Derives one child along the public chain, without any private material.
/// A hardened index always fails, and with nothing else.
pub fn derive_child_public(parent: &ExtendedPublicKey, index: u32) -> (r: Result<
    ExtendedPublicKey,
    KeyError,
>)
    requires
        xpub_wf(parent@),
    ensures
        (match r {
            Ok(k) => spec_derive_child_public(parent@, index) == Ok::<XPubView, KeyError>(k@)
                && xpub_wf(k@),
            Err(e) => spec_derive_child_public(parent@, index) == Err::<XPubView, KeyError>(e),
        }),
        index >= 0x8000_0000 <==> r == Err::<ExtendedPublicKey, KeyError>(
            KeyError::HardenedFromPublicOnly,
        ),
{
    if index >= 0x8000_0000 {
        return Err(KeyError::HardenedFromPublicOnly);
    }
    if parent.depth == 0xFF {
        return Err(KeyError::DepthExceeded);
    }
    let mut data: Vec<u8> = Vec::new();
    append_bytes(&mut data, parent.point.as_slice());
    let cnb = write_be_u32(index);
    append_bytes(&mut data, cnb.as_slice());
    proof {
        assert(data@ =~= spec_public_mac_data(parent@, index));
    }
    let stretched = hmac_sha512(parent.chain_code.as_slice(), data.as_slice());
    let il = copy_range(stretched.as_slice(), 0, 32);
    let ir = copy_range(stretched.as_slice(), 32, 64);
    match point_tweak_add(parent.point.as_slice(), il.as_slice()) {
        Some(pt) => {
            let fp = key_fingerprint(parent.point.as_slice());
            Ok(
                ExtendedPublicKey {
                    point: pt,
                    chain_code: ir,
                    depth: parent.depth + 1,
                    parent_fingerprint: fp,
                    child_number: index,
                },
            )
        },
        None => Err(KeyError::InvalidChildKey),
    }
}

/// The public half of an extended private key.
pub open spec fn spec_public_of_private(k: XPrvView) -> XPubView {
    XPubView {
        point: point_of_scalar(k.scalar),
        chain_code: k.chain_code,
        depth: k.depth,
        parent_fingerprint: k.parent_fingerprint,
        child_number: k.child_number,
    }
}

/// Takes the public half of an extended private key; no secret leaves with it.
pub fn public_from_private(k: &ExtendedPrivateKey) -> (r: ExtendedPublicKey)
    requires
        xprv_wf(k@),
    ensures
        r@ == spec_public_of_private(k@),
        xpub_wf(r@),
{
    ExtendedPublicKey {
        point: pubkey_from_scalar(k.scalar.as_slice()),
        chain_code: clone_bytes(&k.chain_code),
        depth: k.depth,
        parent_fingerprint: clone_bytes(&k.parent_fingerprint),
        child_number: k.child_number,
    }
}

/// What a whole private-chain derivation returns: the segments applied in
/// order, stopping at the first failure.
pub open spec fn spec_derive_path_private(k: XPrvView, segs: Seq<PathSegment>) -> Result<
    XPrvView,
    KeyError,
>
    decreases segs.len(),
{
    if segs.len() == 0 {
        Ok(k)
    } else {
        match spec_derive_child_private(k, segs[0].index, segs[0].hardened) {
            Ok(c) => spec_derive_path_private(c, segs.subrange(1, segs.len() as int)),
            Err(e) => Err(e),
        }
    }
}

/// What a whole public-chain derivation returns: the segments applied in
/// order, stopping at the first failure; a hardened segment fails.
pub open spec fn spec_derive_path_public(k: XPubView, segs: Seq<PathSegment>) -> Result<
    XPubView,
    KeyError,
>
    decreases segs.len(),
{
    if segs.len() == 0 {
        Ok(k)
    } else {
        match spec_derive_child_public(
            k,
            child_number_of(segs[0].index, segs[0].hardened),
        ) {
            Ok(c) => spec_derive_path_public(c, segs.subrange(1, segs.len() as int)),
            Err(e) => Err(e),
        }
    }
}

/// Applies every segment of a path along the private chain.
#[verifier::loop_isolation(false)]
pub fn derive_path_private(root: &ExtendedPrivateKey, path: &DerivationPath) -> (r: Result<
    ExtendedPrivateKey,
    KeyError,
>)
    requires
        xprv_wf(root@),
        path_wf(path@),
    ensures
        (match r {
            Ok(k) => spec_derive_path_private(root@, path@) == Ok::<XPrvView, KeyError>(k@)
                && xprv_wf(k@),
            Err(e) => spec_derive_path_private(root@, path@) == Err::<XPrvView, KeyError>(e),
        }),
{
    let mut cur = root.clone();
    let mut i: usize = 0;
    proof {
        assert(path@.subrange(0, path@.len() as int) =~= path@);
    }
    while i < path.segments.len()
        invariant
            i <= path@.len(),
            xprv_wf(cur@),
            spec_derive_path_private(root@, path@) == spec_derive_path_private(
                cur@,
                path@.subrange(i as int, path@.len() as int),
            ),
        decreases path@.len() - i,
    {
        let seg = path.segments[i];
        let ghost rest = path@.subrange(i as int, path@.len() as int);
        proof {
            assert(rest[0] == path@[i as int]);
            assert(segment_wf(path@[i as int]));
        }
        match derive_child_private(&cur, seg.index, seg.hardened) {
            Ok(c) => {
                proof {
                    assert(rest.subrange(1, rest.len() as int) =~= path@.subrange(
                        i + 1,
                        path@.len() as int,
                    ));
                }
                cur = c;
            },
            Err(e) => {
                return Err(e);
            },
        }
        i = i + 1;
    }
    proof {
        assert(path@.subrange(i as int, path@.len() as int) =~= Seq::<PathSegment>::empty());
    }
    Ok(cur)
}

/// Applies every segment of a path along the public chain.
#[verifier::loop_isolation(false)]
pub fn derive_path_public(root: &ExtendedPublicKey, path: &DerivationPath) -> (r: Result<
    ExtendedPublicKey,
    KeyError,
>)
    requires
        xpub_wf(root@),
        path_wf(path@),
    ensures
        (match r {
            Ok(k) => spec_derive_path_public(root@, path@) == Ok::<XPubView, KeyError>(k@)
                && xpub_wf(k@),
            Err(e) => spec_derive_path_public(root@, path@) == Err::<XPubView, KeyError>(e),
        }),
{
    let mut cur = root.clone();
    let mut i: usize = 0;
    proof {
        assert(path@.subrange(0, path@.len() as int) =~= path@);
    }
    while i < path.segments.len()
        invariant
            i <= path@.len(),
            xpub_wf(cur@),
            spec_derive_path_public(root@, path@) == spec_derive_path_public(
                cur@,
                path@.subrange(i as int, path@.len() as int),
            ),
        decreases path@.len() - i,
    {
        let seg = path.segments[i];
        let ghost rest = path@.subrange(i as int, path@.len() as int);
        proof {
            assert(rest[0] == path@[i as int]);
            assert(segment_wf(path@[i as int]));
        }
        let cn = if seg.hardened {
            seg.index + 0x8000_0000
        } else {
            seg.index
        };
        match derive_child_public(&cur, cn) {
            Ok(c) => {
                proof {
                    assert(rest.subrange(1, rest.len() as int) =~= path@.subrange(
                        i + 1,
                        path@.len() as int,
                    ));
                }
                cur = c;
            },
            Err(e) => {
                return Err(e);
            },
        }
        i = i + 1;
    }
    proof {
        assert(path@.subrange(i as int, path@.len() as int) =~= Seq::<PathSegment>::empty());
    }
    Ok(cur)
}

/// A root for path derivation: a private or a public extended key.
#[derive(Debug, PartialEq, Eq)]
pub enum ExtendedKey {
    Private(ExtendedPrivateKey),
    Public(ExtendedPublicKey),
}

/// Applies a path to whichever kind of key stands at the root: the private
/// chain for a private root, the public-only chain for a public root.
pub fn derive_path(root: &ExtendedKey, path: &DerivationPath) -> (r: Result<
    ExtendedKey,
    KeyError,
>)
    requires
        (match root {
            ExtendedKey::Private(k) => xprv_wf(k@),
            ExtendedKey::Public(k) => xpub_wf(k@),
        }),
        path_wf(path@),
    ensures
        (match root {
            ExtendedKey::Private(k) => (match r {
                Ok(ExtendedKey::Private(c)) => spec_derive_path_private(k@, path@) == Ok::<
                    XPrvView,
                    KeyError,
                >(c@),
                Err(e) => spec_derive_path_private(k@, path@) == Err::<XPrvView, KeyError>(e),
                _ => false,
            }),
            ExtendedKey::Public(k) => (match r {
                Ok(ExtendedKey::Public(c)) => spec_derive_path_public(k@, path@) == Ok::<
                    XPubView,
                    KeyError,
                >(c@),
                Err(e) => spec_derive_path_public(k@, path@) == Err::<XPubView, KeyError>(e),
                _ => false,
            }),
        }),
{
    match root {
        ExtendedKey::Private(k) => match derive_path_private(k, path) {
            Ok(c) => Ok(ExtendedKey::Private(c)),
            Err(e) => Err(e),
        },
        ExtendedKey::Public(k) => match derive_path_public(k, path) {
            Ok(c) => Ok(ExtendedKey::Public(c)),
            Err(e) => Err(e),
        },
    }
}

/// On a plain segment the private and the public chain agree on everything
/// but the point itself: both authenticate the same bytes under the same
/// chain code, so the child chain code, depth, parent fingerprint and child
/// number all coincide.  Whether the points coincide rests on the curve
/// arithmetic of the outside library, which nothing here states.
pub proof fn lemma_plain_child_metadata_agrees(p: XPrvView, index: u32)
    requires
        index < 0x8000_0000,
    ensures
        (match (
            spec_derive_child_private(p, index, false),
            spec_derive_child_public(spec_public_of_private(p), index),
        ) {
            (Ok(c1), Ok(c2)) => c2.chain_code == c1.chain_code && c2.depth == c1.depth
                && c2.parent_fingerprint == c1.parent_fingerprint && c2.child_number
                == c1.child_number,
            _ => true,
        }),
{
    assert(spec_private_mac_data(p, index, false) == spec_public_mac_data(
        spec_public_of_private(p),
        index,
    ));
}

/// Repeating a derivation gives byte-identical results: the whole pipeline
/// from seed and path to key is a function of its inputs, so two runs that
/// saw the same seed and path returned the same key.
pub proof fn lemma_derivation_deterministic(
    seed: Seq<u8>,
    segs: Seq<PathSegment>,
    r1: Result<XPrvView, KeyError>,
    r2: Result<XPrvView, KeyError>,
)
    requires
        r1 == (match spec_master_from_seed(seed) {
            Ok(m) => spec_derive_path_private(m, segs),
            Err(e) => Err(e),
        }),
        r2 == (match spec_master_from_seed(seed) {
            Ok(m) => spec_derive_path_private(m, segs),
            Err(e) => Err(e),
        }),
    ensures
        r1 == r2,
{
}

} // verus!
