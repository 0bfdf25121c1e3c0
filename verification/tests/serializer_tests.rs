use core::str::FromStr;
use kaspa_signature_verification::errors::KeyError;
use kaspa_signature_verification::keys::master_from_seed;
use kaspa_signature_verification::serializer::{
    diagnose_xpub_string, load_xpub_from_string, parse_decoded_xpub, serialize_xpub,
};
use kaspa_signature_verification::signing::create_extended_public_key;

#[test]
fn serialize_then_parse_is_identity() {
    let master = master_from_seed(&[4u8; 64]).unwrap();
    let xpub = create_extended_public_key(&master).unwrap();
    let text = serialize_xpub(&xpub);
    let back = load_xpub_from_string(&text).unwrap();
    assert_eq!(back, xpub);
}

#[test]
fn parse_accepts_the_checksummed_form() {
    let seed = vec![21u8; 64];
    let theirs_master =
        kaspa_bip32::ExtendedPrivateKey::<kaspa_bip32::SecretKey>::new(seed.as_slice()).unwrap();
    let kpath = kaspa_bip32::DerivationPath::from_str("m/44'/111111'/0'").unwrap();
    let account = theirs_master.derive_path(&kpath).unwrap();
    let text = account.public_key().to_string(None);
    let decoded_len = bs58::decode(&text).into_vec().unwrap().len();
    assert_eq!(decoded_len, 82);

    let mine = load_xpub_from_string(&text).unwrap();
    let expected =
        create_extended_public_key(&master_from_seed(&seed).unwrap()).unwrap();
    assert_eq!(mine, expected);
}

#[test]
fn checksum_bytes_are_stripped_unchecked() {
    let master = master_from_seed(&[5u8; 64]).unwrap();
    let xpub = create_extended_public_key(&master).unwrap();
    let body = bs58::decode(&serialize_xpub(&xpub)).into_vec().unwrap();
    assert_eq!(body.len(), 78);
    let mut with_junk_checksum = body.clone();
    with_junk_checksum.extend_from_slice(&[0xDE, 0xAD, 0xBE, 0xEF]);
    assert_eq!(parse_decoded_xpub(&with_junk_checksum).unwrap(), xpub);
}

#[test]
fn wrong_lengths_are_bad_length() {
    let text77 = bs58::encode(&vec![1u8; 77]).into_string();
    assert_eq!(load_xpub_from_string(&text77), Err(KeyError::BadLength));
    let text79 = bs58::encode(&vec![1u8; 79]).into_string();
    assert_eq!(load_xpub_from_string(&text79), Err(KeyError::BadLength));
    assert_eq!(parse_decoded_xpub(&[0u8; 77]), Err(KeyError::BadLength));
    assert_eq!(parse_decoded_xpub(&[0u8; 79]), Err(KeyError::BadLength));
}

#[test]
fn unknown_version_is_bad_version() {
    let text = bs58::encode(&vec![0u8; 78]).into_string();
    assert_eq!(load_xpub_from_string(&text), Err(KeyError::BadVersion));
}

#[test]
fn undecodable_point_is_bad_point_encoding() {
    let mut body = vec![0u8; 78];
    body[0] = 0x04;
    body[1] = 0x88;
    body[2] = 0xB2;
    body[3] = 0x1E;
    let text = bs58::encode(&body).into_string();
    assert_eq!(load_xpub_from_string(&text), Err(KeyError::BadPointEncoding));
}

#[test]
fn text_outside_the_alphabet_is_not_base58() {
    assert_eq!(load_xpub_from_string("0OIl!"), Err(KeyError::NotBase58));
}

#[test]
fn diagnosis_reports_what_it_sees() {
    let master = master_from_seed(&[6u8; 64]).unwrap();
    let xpub = create_extended_public_key(&master).unwrap();
    let good = diagnose_xpub_string(&serialize_xpub(&xpub));
    assert!(good.base58_ok);
    assert!(good.length_ok);
    assert!(good.version_standard);
    assert!(good.point_prefix_ok);
    assert_eq!(good.decoded_len, 78);
    assert_eq!(good.missing_bytes, 0);
    assert_eq!(good.extra_bytes, 0);
    assert_eq!(good.depth, 3);

    let junk = diagnose_xpub_string("!!!");
    assert!(!junk.base58_ok);

    let short = diagnose_xpub_string(&bs58::encode(&vec![2u8; 77]).into_string());
    assert!(short.base58_ok);
    assert!(!short.length_ok);
    assert_eq!(short.missing_bytes, 1);
    assert_eq!(short.extra_bytes, 0);
}
