use vstd::prelude::*;
use crate::bytesutil::copy_range;
use crate::errors::KeyError;

verus! {

/// The mainnet pay-to-pubkey address string of a 32-byte x-coordinate.
pub uninterp spec fn kaspa_address_of(payload: Seq<u8>) -> Seq<char>;

/// Relies on kaspa_addresses::Address (mainnet, pub-key version) and its
/// string form: the address of a 32-byte payload depends on the payload alone.
#[verifier::external_body]
pub(crate) fn encode_address(payload: &[u8]) -> (r: String)
    requires
        payload@.len() == 32,
    ensures
        r@ == kaspa_address_of(payload@),
{
    let addr = kaspa_addresses::Address::new(
        kaspa_addresses::Prefix::Mainnet,
        kaspa_addresses::Version::PubKey,
        payload,
    );
    String::from(&addr)
}

/// Relies on kaspa_addresses::Address::try_from for strings: decoding
/// validates prefix, version and checksum and yields the payload, and the
/// address string of a mainnet pub-key payload decodes back to that payload.
#[verifier::external_body]
pub(crate) fn decode_address(s: &str) -> (r: Option<Vec<u8>>)
    ensures
        (match r {
            Some(p) => p@.len() == 32 && (forall|q: Seq<u8>|
                q.len() == 32 && kaspa_address_of(q) == s@ ==> q == p@),
            None => forall|p: Seq<u8>| p.len() == 32 ==> kaspa_address_of(p) != s@,
        }),
{
    match kaspa_addresses::Address::try_from(s) {
        Ok(a) => match (a.prefix, a.version) {
            (kaspa_addresses::Prefix::Mainnet, kaspa_addresses::Version::PubKey) => Some(
                a.payload.to_vec(),
            ),
            _ => None,
        },
        Err(_) => None,
    }
}

/// The address of a compressed point: its x-coordinate, address-encoded;
/// bytes without a parity prefix have no address.
pub open spec fn spec_address_of_point(point: Seq<u8>) -> Result<Seq<char>, KeyError> {
    if point.len() == 33 && (point[0] == 2 || point[0] == 3) {
        Ok(kaspa_address_of(point.subrange(1, 33)))
    } else {
        Err(KeyError::BadPointEncoding)
    }
}

/// Builds the mainnet address of a compressed public point: the parity
/// prefix is dropped and the x-coordinate is address-encoded.
pub fn address_from_point(point: &[u8]) -> (r: Result<String, KeyError>)
    ensures
        (match r {
            Ok(s) => spec_address_of_point(point@) == Ok::<Seq<char>, KeyError>(s@),
            Err(e) => spec_address_of_point(point@) == Err::<Seq<char>, KeyError>(e),
        }),
{
    if point.len() != 33 {
        return Err(KeyError::BadPointEncoding);
    }
    let b0 = point[0];
    if b0 != 2 && b0 != 3 {
        return Err(KeyError::BadPointEncoding);
    }
    let x = copy_range(point, 1, 33);
    Ok(encode_address(x.as_slice()))
}

} // verus!
