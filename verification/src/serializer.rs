use vstd::prelude::*;
use crate::bytesutil::{append_bytes, be_u32_of, be32_bytes, copy_range, lemma_be_u32_split,
    read_be_u32, write_be_u32};
use crate::curve::{point_decodes, point_parses};
use crate::errors::KeyError;
use crate::keys::{xpub_wf, ExtendedPublicKey, XPubView};

verus! {

/// The base-58 form of a byte string, under the usual alphabet.
pub uninterp spec fn base58_of(b: Seq<u8>) -> Seq<char>;

/// Relies on bs58::encode with the default alphabet.
#[verifier::external_body]
pub(crate) fn base58_encode(b: &[u8]) -> (r: String)
    ensures
        r@ == base58_of(b@),
{
    bs58::encode(b).into_string()
}

/// Relies on bs58::decode with the default alphabet: a decoded string is
/// the encoding of its result, and the encoding of any byte string decodes
/// back to it.
#[verifier::external_body]
pub(crate) fn base58_decode(s: &str) -> (r: Option<Vec<u8>>)
    ensures
        (match r {
            Some(b) => s@ == base58_of(b@) && (forall|q: Seq<u8>| base58_of(q) == s@ ==> q == b@),
            None => forall|b: Seq<u8>| base58_of(b) != s@,
        }),
{
    match bs58::decode(s).into_vec() {
        Ok(v) => Some(v),
        Err(_) => None,
    }
}

/// The version bytes every serialized extended public key carries.
pub open spec fn xpub_version_bytes() -> Seq<u8> {
    seq![0x04u8, 0x88u8, 0xB2u8, 0x1Eu8]
}

/// The 78-byte body of an extended public key: version, depth, parent
/// fingerprint, big-endian child number, chain code, compressed point.
pub open spec fn spec_serialized_body(k: XPubView) -> Seq<u8> {
    xpub_version_bytes() + seq![k.depth] + k.parent_fingerprint + be32_bytes(
        k.child_number as nat,
    ) + k.chain_code + k.point
}

/// What decoded extended-key bytes mean: 78 bytes, or 82 with a trailing
/// checksum that is stripped unread; the version must be the standard one
/// and the point must decode.
pub open spec fn spec_parse_body(b: Seq<u8>) -> Result<XPubView, KeyError> {
    if b.len() != 78 && b.len() != 82 {
        Err(KeyError::BadLength)
    } else {
        let body = b.subrange(0, 78);
        if body.subrange(0, 4) != xpub_version_bytes() {
            Err(KeyError::BadVersion)
        } else if !point_decodes(body.subrange(45, 78)) {
            Err(KeyError::BadPointEncoding)
        } else {
            Ok(
                XPubView {
                    point: body.subrange(45, 78),
                    chain_code: body.subrange(13, 45),
                    depth: body[4],
                    parent_fingerprint: body.subrange(5, 9),
                    child_number: be_u32_of(body.subrange(9, 13)) as u32,
                },
            )
        }
    }
}

/// Extracts the fields of an extended public key from its decoded bytes.
pub fn parse_decoded_xpub(b: &[u8]) -> (r: Result<ExtendedPublicKey, KeyError>)
    ensures
        (match r {
            Ok(k) => spec_parse_body(b@) == Ok::<XPubView, KeyError>(k@) && xpub_wf(k@),
            Err(e) => spec_parse_body(b@) == Err::<XPubView, KeyError>(e),
        }),
{
    if !(b.len() == 78 || b.len() == 82) {
        return Err(KeyError::BadLength);
    }
    let ghost body = b@.subrange(0, 78);
    proof {
        assert(body.subrange(0, 4) =~= b@.subrange(0, 4));
        assert(body.subrange(45, 78) =~= b@.subrange(45, 78));
        assert(body.subrange(13, 45) =~= b@.subrange(13, 45));
        assert(body.subrange(5, 9) =~= b@.subrange(5, 9));
        assert(body.subrange(9, 13) =~= b@.subrange(9, 13));
    }
    if !(b[0] == 0x04 && b[1] == 0x88 && b[2] == 0xB2 && b[3] == 0x1E) {
        proof {
            assert(body.subrange(0, 4) != xpub_version_bytes()) by {
                assert(body.subrange(0, 4)[0] == b@[0]);
                assert(body.subrange(0, 4)[1] == b@[1]);
                assert(body.subrange(0, 4)[2] == b@[2]);
                assert(body.subrange(0, 4)[3] == b@[3]);
            }
        }
        return Err(KeyError::BadVersion);
    }
    proof {
        assert(body.subrange(0, 4) =~= xpub_version_bytes());
    }
    let point = copy_range(b, 45, 78);
    if !point_parses(point.as_slice()) {
        return Err(KeyError::BadPointEncoding);
    }
    let cn = read_be_u32(b[9], b[10], b[11], b[12]);
    proof {
        assert(be_u32_of(body.subrange(9, 13)) == cn as nat);
    }
    Ok(
        ExtendedPublicKey {
            point,
            chain_code: copy_range(b, 13, 45),
            depth: b[4],
            parent_fingerprint: copy_range(b, 5, 9),
            child_number: cn,
        },
    )
}

/// Parses the base-58 text form of an extended public key, with or without
/// a trailing four-byte checksum; checksum bytes are stripped, not checked.
pub fn load_xpub_from_string(s: &str) -> (r: Result<ExtendedPublicKey, KeyError>)
    ensures
        (match r {
            Ok(k) => (exists|b: Seq<u8>|
                base58_of(b) == s@ && spec_parse_body(b) == Ok::<XPubView, KeyError>(k@))
                && xpub_wf(k@),
            Err(e) => forall|b: Seq<u8>|
                base58_of(b) == s@ ==> spec_parse_body(b) == Err::<XPubView, KeyError>(e),
        }),
        r == Err::<ExtendedPublicKey, KeyError>(KeyError::NotBase58) <==> (forall|b: Seq<u8>|
            base58_of(b) != s@),
{
    let decoded = match base58_decode(s) {
        Some(v) => v,
        None => {
            return Err(KeyError::NotBase58);
        },
    };
    match parse_decoded_xpub(decoded.as_slice()) {
        Ok(k) => {
            proof {
                assert(base58_of(decoded@) == s@ && spec_parse_body(decoded@)
                    == Ok::<XPubView, KeyError>(k@));
            }
            Ok(k)
        },
        Err(e) => {
            proof {
                assert(e != KeyError::NotBase58);
            }
            Err(e)
        },
    }
}

/// Serializes an extended public key: the 78-byte body in base-58, with no
/// checksum appended.
pub fn serialize_xpub(k: &ExtendedPublicKey) -> (r: String)
    requires
        xpub_wf(k@),
    ensures
        r@ == base58_of(spec_serialized_body(k@)),
{
    let mut body: Vec<u8> = Vec::new();
    body.push(0x04);
    body.push(0x88);
    body.push(0xB2);
    body.push(0x1E);
    body.push(k.depth);
    append_bytes(&mut body, k.parent_fingerprint.as_slice());
    let cnb = write_be_u32(k.child_number);
    append_bytes(&mut body, cnb.as_slice());
    append_bytes(&mut body, k.chain_code.as_slice());
    append_bytes(&mut body, k.point.as_slice());
    proof {
        assert(body@ =~= spec_serialized_body(k@));
    }
    base58_encode(body.as_slice())
}

/// What a close look at an extended-key string finds, field by field.
#[derive(Debug, PartialEq, Eq)]
pub struct XpubDiagnosis {
    /// Whether the text decoded as base-58 at all.
    pub base58_ok: bool,
    /// How many bytes it decoded to.
    pub decoded_len: usize,
    /// Whether that is the plain 78-byte body.
    pub length_ok: bool,
    /// How many bytes short of 78 it falls.
    pub missing_bytes: usize,
    /// How many bytes past 78 it runs.
    pub extra_bytes: usize,
    /// The version bytes, when there are at least four.
    pub version: Vec<u8>,
    /// Whether the version is the standard one.
    pub version_standard: bool,
    /// The depth byte, when the body is complete.
    pub depth: u8,
    /// The parent fingerprint, when the body is complete.
    pub fingerprint: Vec<u8>,
    /// Whether the point carries a compressed-format parity prefix.
    pub point_prefix_ok: bool,
    /// The decoded bytes themselves.
    pub decoded: Vec<u8>,
}

/// What each diagnosis field says of the decoded bytes.
pub open spec fn diagnosis_describes(d: XpubDiagnosis, b: Seq<u8>) -> bool {
    &&& d.decoded@ == b
    &&& d.decoded_len == b.len()
    &&& d.length_ok == (b.len() == 78)
    &&& d.missing_bytes == (if b.len() < 78 {
        78 - b.len()
    } else {
        0
    })
    &&& d.extra_bytes == (if b.len() > 78 {
        b.len() - 78
    } else {
        0
    })
    &&& d.version@ == (if b.len() >= 4 {
        b.subrange(0, 4)
    } else {
        Seq::<u8>::empty()
    })
    &&& d.version_standard == (b.len() >= 4 && b.subrange(0, 4) == xpub_version_bytes())
    &&& d.depth == (if b.len() >= 78 {
        b[4]
    } else {
        0
    })
    &&& d.fingerprint@ == (if b.len() >= 78 {
        b.subrange(5, 9)
    } else {
        Seq::<u8>::empty()
    })
    &&& d.point_prefix_ok == (b.len() >= 78 && (b[45] == 2 || b[45] == 3))
}

/// Looks over an extended-key string and reports what holds and what is
/// off: decoded length against the 78-byte body, version bytes, and the
/// point's parity prefix.
pub fn diagnose_xpub_string(s: &str) -> (r: XpubDiagnosis)
    ensures
        r.base58_ok <==> (exists|b: Seq<u8>| base58_of(b) == s@),
        r.base58_ok ==> forall|b: Seq<u8>| base58_of(b) == s@ ==> diagnosis_describes(r, b),
{
    let decoded = match base58_decode(s) {
        Some(v) => v,
        None => {
            return XpubDiagnosis {
                base58_ok: false,
                decoded_len: 0,
                length_ok: false,
                missing_bytes: 0,
                extra_bytes: 0,
                version: Vec::new(),
                version_standard: false,
                depth: 0,
                fingerprint: Vec::new(),
                point_prefix_ok: false,
                decoded: Vec::new(),
            };
        },
    };
    let n = decoded.len();
    let version = if n >= 4 {
        copy_range(decoded.as_slice(), 0, 4)
    } else {
        Vec::new()
    };
    let version_standard = n >= 4 && decoded[0] == 0x04 && decoded[1] == 0x88 && decoded[2]
        == 0xB2 && decoded[3] == 0x1E;
    proof {
        if n >= 4 {
            if version_standard {
                assert(decoded@.subrange(0, 4) =~= xpub_version_bytes());
            } else {
                assert(decoded@.subrange(0, 4)[0] == decoded@[0]);
                assert(decoded@.subrange(0, 4)[1] == decoded@[1]);
                assert(decoded@.subrange(0, 4)[2] == decoded@[2]);
                assert(decoded@.subrange(0, 4)[3] == decoded@[3]);
            }
        }
    }
    let fingerprint = if n >= 78 {
        copy_range(decoded.as_slice(), 5, 9)
    } else {
        Vec::new()
    };
    let r = XpubDiagnosis {
        base58_ok: true,
        decoded_len: n,
        length_ok: n == 78,
        missing_bytes: if n < 78 {
            78 - n
        } else {
            0
        },
        extra_bytes: if n > 78 {
            n - 78
        } else {
            0
        },
        version,
        version_standard,
        depth: if n >= 78 {
            decoded[4]
        } else {
            0
        },
        fingerprint,
        point_prefix_ok: n >= 78 && (decoded[45] == 2 || decoded[45] == 3),
        decoded,
    };
    proof {
        assert(diagnosis_describes(r, r.decoded@));
    }
    r
}

/// The serialized body of a well-formed key parses back to the key: the
/// byte layout loses nothing, so a serialize-parse round trip is identity.
pub proof fn lemma_serialize_parse_roundtrip(k: XPubView)
    requires
        k.parent_fingerprint.len() == 4,
        k.chain_code.len() == 32,
        k.point.len() == 33,
    ensures
        point_decodes(k.point) ==> spec_parse_body(spec_serialized_body(k)) == Ok::<
            XPubView,
            KeyError,
        >(k),
{
    let b = spec_serialized_body(k);
    assert(b.len() == 78);
    let body = b.subrange(0, 78);
    assert(body =~= b);
    assert(body.subrange(0, 4) =~= xpub_version_bytes());
    assert(body.subrange(45, 78) =~= k.point);
    assert(body.subrange(13, 45) =~= k.chain_code);
    assert(body.subrange(5, 9) =~= k.parent_fingerprint);
    assert(body[4] == k.depth);
    assert(body.subrange(9, 13) =~= be32_bytes(k.child_number as nat));
    lemma_be_u32_split(k.child_number as nat);
    assert(be_u32_of(be32_bytes(k.child_number as nat)) == k.child_number as nat);
}

} // verus!
