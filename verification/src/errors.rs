use vstd::prelude::*;

verus! {

/// The failure cases of the library, named after the part that reports them.
#[derive(Clone, Copy, Debug, PartialEq, Eq, Structural)]
pub enum KeyError {
    /// A seed shorter than 16 or longer than 64 bytes.
    InvalidSeedLength,
    /// Master-key material fell outside the curve's scalar range.
    InvalidMasterKey,
    /// A derivation step produced an out-of-range scalar or an invalid point.
    InvalidChildKey,
    /// The scalar handed to the signer was not a valid secret key.
    InvalidSigningKey,
    /// Hardened derivation was requested from a public-only key.
    HardenedFromPublicOnly,
    /// A derivation step would push the depth past the one-byte maximum.
    DepthExceeded,
    /// A derivation path string did not parse.
    InvalidPath,
    /// An address string did not decode.
    MalformedAddress,
    /// A signature string was not the hex form of a 64-byte signature.
    MalformedSignature,
    /// An extended-key string was not base-58 text.
    NotBase58,
    /// An extended key decoded to neither 78 nor 82 bytes.
    BadLength,
    /// An extended key carried an unrecognised version.
    BadVersion,
    /// The compressed point inside an extended key did not parse.
    BadPointEncoding,
    /// A derivation failure interrupted an address search.
    SearchFailed,
}

/// The four classes of failure the library distinguishes.
#[derive(Clone, Copy, Debug, PartialEq, Eq, Structural)]
pub enum ErrorKind {
    /// Malformed caller input: always locally recoverable.
    InputFormat,
    /// Derivation produced an out-of-range scalar or point.
    CryptoInvalid,
    /// An operation the key in hand cannot perform.
    Unsupported,
    /// A search was aborted rather than risk an incomplete answer.
    Concurrency,
}

pub open spec fn spec_error_kind(e: KeyError) -> ErrorKind {
    match e {
        KeyError::InvalidSeedLength => ErrorKind::InputFormat,
        KeyError::InvalidMasterKey => ErrorKind::CryptoInvalid,
        KeyError::InvalidChildKey => ErrorKind::CryptoInvalid,
        KeyError::InvalidSigningKey => ErrorKind::CryptoInvalid,
        KeyError::HardenedFromPublicOnly => ErrorKind::Unsupported,
        KeyError::DepthExceeded => ErrorKind::Unsupported,
        KeyError::InvalidPath => ErrorKind::InputFormat,
        KeyError::MalformedAddress => ErrorKind::InputFormat,
        KeyError::MalformedSignature => ErrorKind::InputFormat,
        KeyError::NotBase58 => ErrorKind::InputFormat,
        KeyError::BadLength => ErrorKind::InputFormat,
        KeyError::BadVersion => ErrorKind::InputFormat,
        KeyError::BadPointEncoding => ErrorKind::InputFormat,
        KeyError::SearchFailed => ErrorKind::Concurrency,
    }
}

impl KeyError {
    /// The class a failure belongs to.
    pub fn kind(&self) -> (r: ErrorKind)
        ensures
            r == spec_error_kind(*self),
    {
        match self {
            KeyError::InvalidSeedLength => ErrorKind::InputFormat,
            KeyError::InvalidMasterKey => ErrorKind::CryptoInvalid,
            KeyError::InvalidChildKey => ErrorKind::CryptoInvalid,
            KeyError::InvalidSigningKey => ErrorKind::CryptoInvalid,
            KeyError::HardenedFromPublicOnly => ErrorKind::Unsupported,
            KeyError::DepthExceeded => ErrorKind::Unsupported,
            KeyError::InvalidPath => ErrorKind::InputFormat,
            KeyError::MalformedAddress => ErrorKind::InputFormat,
            KeyError::MalformedSignature => ErrorKind::InputFormat,
            KeyError::NotBase58 => ErrorKind::InputFormat,
            KeyError::BadLength => ErrorKind::InputFormat,
            KeyError::BadVersion => ErrorKind::InputFormat,
            KeyError::BadPointEncoding => ErrorKind::InputFormat,
            KeyError::SearchFailed => ErrorKind::Concurrency,
        }
    }
}

} // verus!
