use core::str::FromStr;
use kaspa_signature_verification::errors::{ErrorKind, KeyError};
use kaspa_signature_verification::keys::{
    derive_child_private, derive_child_public, derive_path, derive_path_private, master_from_seed,
    public_from_private, ExtendedKey,
};
use kaspa_signature_verification::path::parse_derivation_path;

fn seed64(fill: u8) -> Vec<u8> {
    vec![fill; 64]
}

#[test]
fn master_key_matches_reference() {
    let seed = seed64(1);
    let mine = master_from_seed(&seed).unwrap();
    let theirs =
        kaspa_bip32::ExtendedPrivateKey::<kaspa_bip32::SecretKey>::new(seed.as_slice()).unwrap();
    assert_eq!(mine.scalar, theirs.to_bytes().to_vec());
    assert_eq!(mine.chain_code, theirs.attrs().chain_code.to_vec());
    assert_eq!(mine.depth, theirs.attrs().depth);
    assert_eq!(mine.child_number, theirs.attrs().child_number.0);
    assert_eq!(mine.parent_fingerprint, vec![0u8; 4]);
}

#[test]
fn path_derivation_matches_reference() {
    let seed = seed64(2);
    let mine_master = master_from_seed(&seed).unwrap();
    let path = parse_derivation_path(b"m/44'/111111'/0'/0/0").unwrap();
    let mine = derive_path_private(&mine_master, &path).unwrap();

    let theirs_master =
        kaspa_bip32::ExtendedPrivateKey::<kaspa_bip32::SecretKey>::new(seed.as_slice()).unwrap();
    let kpath = kaspa_bip32::DerivationPath::from_str("m/44'/111111'/0'/0/0").unwrap();
    let theirs = theirs_master.derive_path(&kpath).unwrap();
    assert_eq!(mine.scalar, theirs.to_bytes().to_vec());
    assert_eq!(mine.chain_code, theirs.attrs().chain_code.to_vec());
    assert_eq!(mine.depth, theirs.attrs().depth);
    assert_eq!(
        mine.parent_fingerprint,
        theirs.attrs().parent_fingerprint.to_vec()
    );
    assert_eq!(mine.child_number, theirs.attrs().child_number.0);
}

#[test]
fn master_key_matches_published_vector() {
    let seed = hex::decode("000102030405060708090a0b0c0d0e0f").unwrap();
    let master = master_from_seed(&seed).unwrap();
    assert_eq!(
        hex::encode(&master.scalar),
        "e8f32e723decf4051aefac8e2c93c9c5b214313817cdb01a1494b917c8436b35"
    );
    assert_eq!(
        hex::encode(&master.chain_code),
        "873dff81c02f525623fd1fe5167eac3a55a049de3d314bb42ee227ffed37d508"
    );
}

#[test]
fn depth_cannot_pass_the_one_byte_maximum() {
    let master = master_from_seed(&vec![40u8; 64]).unwrap();
    let mut deep = public_from_private(&master);
    deep.depth = 0xFF;
    assert_eq!(derive_child_public(&deep, 0), Err(KeyError::DepthExceeded));
    let mut deep_priv = master.clone();
    deep_priv.depth = 0xFF;
    assert_eq!(
        derive_child_private(&deep_priv, 0, false),
        Err(KeyError::DepthExceeded)
    );
}

#[test]
fn derivation_is_deterministic() {
    let seed = seed64(3);
    let path = parse_derivation_path(b"m/44'/111111'/0'/0/0").unwrap();
    let a = derive_path_private(&master_from_seed(&seed).unwrap(), &path).unwrap();
    let b = derive_path_private(&master_from_seed(&seed).unwrap(), &path).unwrap();
    assert_eq!(a, b);
}

#[test]
fn public_and_private_chains_agree_on_plain_segments() {
    let master = master_from_seed(&seed64(4)).unwrap();
    let child_priv = derive_child_private(&master, 5, false).unwrap();
    let public_of_child = public_from_private(&child_priv);
    let parent_pub = public_from_private(&master);
    let child_pub = derive_child_public(&parent_pub, 5).unwrap();
    assert_eq!(public_of_child, child_pub);
}

#[test]
fn hardened_derivation_from_public_key_fails() {
    let parent_pub = public_from_private(&master_from_seed(&seed64(5)).unwrap());
    assert_eq!(
        derive_child_public(&parent_pub, 0x8000_0000),
        Err(KeyError::HardenedFromPublicOnly)
    );
    assert_eq!(
        derive_child_public(&parent_pub, u32::MAX),
        Err(KeyError::HardenedFromPublicOnly)
    );
    assert_eq!(
        KeyError::HardenedFromPublicOnly.kind(),
        ErrorKind::Unsupported
    );
}

#[test]
fn seed_length_bounds_are_enforced() {
    assert_eq!(master_from_seed(&[0u8; 15]), Err(KeyError::InvalidSeedLength));
    assert_eq!(master_from_seed(&[0u8; 65]), Err(KeyError::InvalidSeedLength));
    assert!(master_from_seed(&[0x5Au8; 16]).is_ok());
    assert!(master_from_seed(&[0x5Au8; 64]).is_ok());
}

#[test]
fn path_parsing_accepts_the_usual_forms() {
    let p = parse_derivation_path(b"m/44'/111111'/0'/0/0").unwrap();
    let idx: Vec<(u32, bool)> = p.segments.iter().map(|s| (s.index, s.hardened)).collect();
    assert_eq!(
        idx,
        vec![(44, true), (111111, true), (0, true), (0, false), (0, false)]
    );
    assert_eq!(parse_derivation_path(b"m").unwrap().segments.len(), 0);
    let one = parse_derivation_path(b"m/7").unwrap();
    assert_eq!(one.segments[0].index, 7);
    assert!(!one.segments[0].hardened);
    let hardened = parse_derivation_path(b"m/0'").unwrap();
    assert!(hardened.segments[0].hardened);
}

#[test]
fn path_parsing_rejects_malformed_text() {
    assert_eq!(parse_derivation_path(b""), Err(KeyError::InvalidPath));
    assert_eq!(parse_derivation_path(b"x/0"), Err(KeyError::InvalidPath));
    assert_eq!(parse_derivation_path(b"m/"), Err(KeyError::InvalidPath));
    assert_eq!(parse_derivation_path(b"m//0"), Err(KeyError::InvalidPath));
    assert_eq!(parse_derivation_path(b"m/abc"), Err(KeyError::InvalidPath));
    assert_eq!(parse_derivation_path(b"m/12x"), Err(KeyError::InvalidPath));
    assert_eq!(parse_derivation_path(b"m/'"), Err(KeyError::InvalidPath));
    assert_eq!(
        parse_derivation_path(b"m/2147483648"),
        Err(KeyError::InvalidPath)
    );
    assert_eq!(
        parse_derivation_path(b"m/99999999999999999999"),
        Err(KeyError::InvalidPath)
    );
    assert!(parse_derivation_path(b"m/2147483647").is_ok());
}

#[test]
fn typed_root_selects_the_matching_chain() {
    let master = master_from_seed(&seed64(6)).unwrap();
    let path = parse_derivation_path(b"m/0/1").unwrap();
    let expected = derive_path_private(&master, &path).unwrap();
    let root = ExtendedKey::Private(master.clone());
    match derive_path(&root, &path).unwrap() {
        ExtendedKey::Private(k) => assert_eq!(k, expected),
        ExtendedKey::Public(_) => panic!("a private root must stay private"),
    }
    let pub_root = ExtendedKey::Public(public_from_private(&master));
    let expected_pub = public_from_private(&expected);
    match derive_path(&pub_root, &path).unwrap() {
        ExtendedKey::Public(k) => {
            assert_eq!(k.point, expected_pub.point);
            assert_eq!(k.chain_code, expected_pub.chain_code);
        }
        ExtendedKey::Private(_) => panic!("a public root must stay public"),
    }
    let hardened_path = parse_derivation_path(b"m/0'").unwrap();
    assert_eq!(
        derive_path(&pub_root, &hardened_path),
        Err(KeyError::HardenedFromPublicOnly)
    );
}
