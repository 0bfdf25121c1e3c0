use core::str::FromStr;
use kaspa_signature_verification::address::address_from_point;
use kaspa_signature_verification::errors::KeyError;
use kaspa_signature_verification::keys::{derive_child_public, master_from_seed};
use kaspa_signature_verification::search::{
    check_address_belongs_to_xpub, chunk_bounds, scan_range, search_derived_addresses,
};
use kaspa_signature_verification::signing::create_extended_public_key;

#[test]
fn chunks_cut_ten_across_three_workers() {
    assert_eq!(chunk_bounds(10, 3), vec![(0, 4), (4, 8), (8, 10)]);
}

#[test]
fn chunks_skip_idle_workers_and_empty_limits() {
    assert_eq!(
        chunk_bounds(5, 8),
        vec![(0, 1), (1, 2), (2, 3), (3, 4), (4, 5)]
    );
    assert_eq!(chunk_bounds(0, 4), vec![]);
    assert_eq!(chunk_bounds(7, 1), vec![(0, 7)]);
}

#[test]
fn search_finds_a_known_child_for_every_worker_count() {
    let master = master_from_seed(&[30u8; 64]).unwrap();
    let xpub = create_extended_public_key(&master).unwrap();
    let chain = derive_child_public(&xpub, 0).unwrap();
    let child = derive_child_public(&chain, 7).unwrap();
    let addr = address_from_point(&child.point).unwrap();
    for w in [1u32, 2, 8] {
        assert_eq!(
            check_address_belongs_to_xpub(&xpub, &addr, 20, w),
            Ok(Some(7)),
            "worker count {w}"
        );
    }
}

#[test]
fn search_reports_exhaustion_for_an_absent_address() {
    let master = master_from_seed(&[31u8; 64]).unwrap();
    let xpub = create_extended_public_key(&master).unwrap();
    let chain = derive_child_public(&xpub, 0).unwrap();
    let child = derive_child_public(&chain, 25).unwrap();
    let addr = address_from_point(&child.point).unwrap();
    for w in [1u32, 2, 8] {
        assert_eq!(check_address_belongs_to_xpub(&xpub, &addr, 20, w), Ok(None));
    }
}

#[test]
fn search_refuses_malformed_addresses() {
    let master = master_from_seed(&[32u8; 64]).unwrap();
    let xpub = create_extended_public_key(&master).unwrap();
    assert_eq!(
        check_address_belongs_to_xpub(&xpub, "xyz", 10, 2),
        Err(KeyError::MalformedAddress)
    );
}

#[test]
fn a_broken_scan_surfaces_as_search_failed() {
    let master = master_from_seed(&[35u8; 64]).unwrap();
    let xpub = create_extended_public_key(&master).unwrap();
    let chain = derive_child_public(&xpub, 0).unwrap();
    let child = derive_child_public(&chain, 0).unwrap();
    let addr = address_from_point(&child.point).unwrap();

    let mut nearly_too_deep = xpub.clone();
    nearly_too_deep.depth = 0xFE;
    assert_eq!(
        check_address_belongs_to_xpub(&nearly_too_deep, &addr, 4, 2),
        Err(KeyError::SearchFailed)
    );

    let mut too_deep = xpub.clone();
    too_deep.depth = 0xFF;
    assert_eq!(
        check_address_belongs_to_xpub(&too_deep, &addr, 4, 2),
        Err(KeyError::DepthExceeded)
    );
}

#[test]
fn search_agrees_with_the_reference_derivation() {
    let seed = vec![33u8; 64];
    let theirs_master =
        kaspa_bip32::ExtendedPrivateKey::<kaspa_bip32::SecretKey>::new(seed.as_slice()).unwrap();
    let kpath = kaspa_bip32::DerivationPath::from_str("m/44'/111111'/0'").unwrap();
    let account = theirs_master.derive_path(&kpath).unwrap();
    let kxpub = account.public_key();
    let child_path = kaspa_bip32::DerivationPath::from_str("m/0/7").unwrap();
    let child = kxpub.derive_path(&child_path).unwrap();
    let point = child.to_bytes();
    assert!(point[0] == 2 || point[0] == 3);
    let addr = kaspa_addresses::Address::new(
        kaspa_addresses::Prefix::Mainnet,
        kaspa_addresses::Version::PubKey,
        &point[1..33],
    );

    let xpub = create_extended_public_key(&master_from_seed(&seed).unwrap()).unwrap();
    assert_eq!(
        check_address_belongs_to_xpub(&xpub, &String::from(&addr), 16, 4),
        Ok(Some(7))
    );
}

#[test]
fn scan_covers_exactly_its_range() {
    let master = master_from_seed(&[34u8; 64]).unwrap();
    let xpub = create_extended_public_key(&master).unwrap();
    let chain = derive_child_public(&xpub, 0).unwrap();
    let child = derive_child_public(&chain, 7).unwrap();
    let payload = child.point[1..33].to_vec();
    assert_eq!(scan_range(&chain, &payload, 0, 20), Ok(Some(7)));
    assert_eq!(scan_range(&chain, &payload, 8, 20), Ok(None));
    assert_eq!(scan_range(&chain, &payload, 0, 7), Ok(None));
    assert_eq!(
        search_derived_addresses(&xpub, &payload, 20, 3),
        Ok(Some(7))
    );
}
