use kaspa_signature_verification::errors::KeyError;
use kaspa_signature_verification::hashes::double_sha256;
use kaspa_signature_verification::keys::{master_from_seed, public_from_private};
use kaspa_signature_verification::signing::{
    derive_kaspa_key_and_address, sign_message, verify_signature, verify_with_x_only_pubkey,
};
use sha2::Digest;

#[test]
fn digest_is_two_sha256_passes() {
    let d = double_sha256(b"hello kaspa");
    let first = sha2::Sha256::digest(b"hello kaspa" as &[u8]);
    let expected = sha2::Sha256::digest(first);
    assert_eq!(d, expected.to_vec());
    assert_eq!(
        hex::encode(double_sha256(b"")),
        "5df6e0e2761359d30a8275058e299fcc0381534545f55cf43e41983f5d4c9456"
    );
}

#[test]
fn sign_and_verify_round_trip() {
    let (key, addr) = derive_kaspa_key_and_address(&[9u8; 64]).unwrap();
    let sig = sign_message(b"a message", &key.scalar).unwrap();
    assert_eq!(sig.len(), 128);
    assert_eq!(verify_signature(b"a message", &sig, &addr), Ok(true));
}

#[test]
fn signature_matches_reference_signer() {
    let (key, _) = derive_kaspa_key_and_address(&[10u8; 64]).unwrap();
    let sig = sign_message(b"msg", &key.scalar).unwrap();
    let sk = secp256k1::SecretKey::from_secret_bytes(
        <[u8; 32]>::try_from(key.scalar.as_slice()).unwrap(),
    )
    .unwrap();
    let digest = double_sha256(b"msg");
    let msg = secp256k1::Message::from_digest(<[u8; 32]>::try_from(digest.as_slice()).unwrap());
    let expected = secp256k1::ecdsa::sign(msg, &sk).serialize_compact();
    assert_eq!(sig, hex::encode(expected));
}

#[test]
fn verify_rejects_message_tampering() {
    let (key, addr) = derive_kaspa_key_and_address(&[11u8; 64]).unwrap();
    let sig = sign_message(b"pay me 5", &key.scalar).unwrap();
    for bit in 0..8 {
        let mut tampered = b"pay me 5".to_vec();
        tampered[3] ^= 1u8 << bit;
        assert_eq!(verify_signature(&tampered, &sig, &addr), Ok(false));
    }
}

#[test]
fn verify_rejects_signature_tampering() {
    let (key, addr) = derive_kaspa_key_and_address(&[12u8; 64]).unwrap();
    let sig = sign_message(b"pay me 5", &key.scalar).unwrap();
    let bytes = hex::decode(&sig).unwrap();
    for pos in [0usize, 20, 40, 63] {
        let mut tampered = bytes.clone();
        tampered[pos] ^= 0x01;
        assert_eq!(
            verify_signature(b"pay me 5", &hex::encode(&tampered), &addr),
            Ok(false)
        );
    }
}

#[test]
fn verify_rejects_address_tampering() {
    let (key, addr) = derive_kaspa_key_and_address(&[13u8; 64]).unwrap();
    let sig = sign_message(b"pay me 5", &key.scalar).unwrap();
    let parsed = kaspa_addresses::Address::try_from(addr.as_str()).unwrap();
    let mut payload = parsed.payload.to_vec();
    payload[8] ^= 0x10;
    let other = kaspa_addresses::Address::new(
        kaspa_addresses::Prefix::Mainnet,
        kaspa_addresses::Version::PubKey,
        &payload,
    );
    assert_eq!(
        verify_signature(b"pay me 5", &sig, &String::from(&other)),
        Ok(false)
    );
}

#[test]
fn verify_tries_both_parities() {
    let mut fill: u8 = 20;
    loop {
        let master = master_from_seed(&[fill; 64]).unwrap();
        let parity = public_from_private(&master).point[0];
        let digest = double_sha256(b"either parity");
        let sig_hex = sign_message(b"either parity", &master.scalar).unwrap();
        let sig = hex::decode(&sig_hex).unwrap();
        let x = public_from_private(&master).point[1..33].to_vec();
        assert!(verify_with_x_only_pubkey(&digest, &sig, &x));
        if parity == 3 {
            break;
        }
        fill += 1;
    }
}

#[test]
fn off_curve_x_coordinate_verifies_nothing() {
    let digest = double_sha256(b"m");
    let sig = vec![1u8; 64];
    let mut x = vec![0u8; 32];
    let mut hits = 0;
    for b in 0..8u8 {
        x[31] = b;
        if !verify_with_x_only_pubkey(&digest, &sig, &x) {
            hits += 1;
        }
    }
    assert_eq!(hits, 8);
}

#[test]
fn malformed_signature_text_is_refused() {
    let (_, addr) = derive_kaspa_key_and_address(&[14u8; 64]).unwrap();
    assert_eq!(
        verify_signature(b"m", "zz", &addr),
        Err(KeyError::MalformedSignature)
    );
    assert_eq!(
        verify_signature(b"m", "abc", &addr),
        Err(KeyError::MalformedSignature)
    );
    assert_eq!(
        verify_signature(b"m", "abcd", &addr),
        Err(KeyError::MalformedSignature)
    );
}

#[test]
fn malformed_address_text_is_refused() {
    let sig = "00".repeat(64);
    assert_eq!(
        verify_signature(b"m", &sig, "notanaddress"),
        Err(KeyError::MalformedAddress)
    );
    assert_eq!(
        verify_signature(b"m", &sig, "kaspa:qqqq"),
        Err(KeyError::MalformedAddress)
    );
}

#[test]
fn invalid_scalars_cannot_sign() {
    assert_eq!(
        sign_message(b"m", &[0u8; 32]),
        Err(KeyError::InvalidSigningKey)
    );
    assert_eq!(
        sign_message(b"m", &[1u8; 5]),
        Err(KeyError::InvalidSigningKey)
    );
    assert_eq!(
        sign_message(b"m", &[0xFFu8; 32]),
        Err(KeyError::InvalidSigningKey)
    );
}
