use hmac::{Hmac, Mac};
use tsc::bip39::{
    commitment_at_index, derive_active_key, derive_key_at_index, derive_prerotation_key,
    generate_sovereign_entropy, prerotation_commitment, restore_from_phrase,
};

/// All-`abandon` + `art` mnemonic: well-known BIP-39 test vector.
const TEST_MNEMONIC: &str = "abandon abandon abandon abandon abandon abandon abandon abandon \
     abandon abandon abandon abandon abandon abandon abandon abandon \
     abandon abandon abandon abandon abandon abandon abandon art";

#[test]
fn restore_from_phrase_succeeds() {
    restore_from_phrase(TEST_MNEMONIC).expect("valid mnemonic must parse");
}

#[test]
fn restore_from_phrase_rejects_invalid() {
    assert!(restore_from_phrase("not a valid mnemonic phrase at all bla bla").is_err());
}

#[test]
fn active_key_is_deterministic() {
    let seed = restore_from_phrase(TEST_MNEMONIC).unwrap();
    let k1a = derive_active_key(&seed).unwrap();
    let k1b = derive_active_key(&seed).unwrap();
    assert_eq!(k1a.to_bytes(), k1b.to_bytes(), "same seed → same key");
}

#[test]
fn active_and_prerotation_keys_differ() {
    let seed = restore_from_phrase(TEST_MNEMONIC).unwrap();
    let k1 = derive_active_key(&seed).unwrap();
    let k2 = derive_prerotation_key(&seed).unwrap();
    assert_ne!(k1.to_bytes(), k2.to_bytes(), "K1 and K2 must be distinct");
}

#[test]
fn prerotation_commitment_is_nonzero() {
    let seed = restore_from_phrase(TEST_MNEMONIC).unwrap();
    let c = prerotation_commitment(&seed).unwrap();
    assert_ne!(c, [0u8; 32], "commitment must not be all-zero");
}

#[test]
fn prerotation_commitment_is_deterministic() {
    let seed = restore_from_phrase(TEST_MNEMONIC).unwrap();
    let c1 = prerotation_commitment(&seed).unwrap();
    let c2 = prerotation_commitment(&seed).unwrap();
    assert_eq!(c1, c2);
}

#[test]
fn restored_seed_is_the_bip39_test_vector() {
    let seed = restore_from_phrase(TEST_MNEMONIC).unwrap();
    assert_eq!(seed.len(), 64);
    // The BIP-39 seed of this phrase with an empty passphrase, computed directly.
    let expected = bip39::Mnemonic::parse_in(bip39::Language::English, TEST_MNEMONIC)
        .unwrap()
        .to_seed("");
    assert_eq!(seed, expected.to_vec());
}

#[test]
fn invalid_mnemonic_error_carries_its_prefix() {
    let e = restore_from_phrase("abandon abandon").unwrap_err();
    assert!(e.message().starts_with("CRYPTO:INVALID_MNEMONIC: "));
}

#[test]
fn keys_at_indices_match_named_keys() {
    let seed = restore_from_phrase(TEST_MNEMONIC).unwrap();
    let k0 = derive_key_at_index(&seed, 0).unwrap();
    let k1 = derive_key_at_index(&seed, 1).unwrap();
    assert_eq!(k0.to_bytes(), derive_active_key(&seed).unwrap().to_bytes());
    assert_eq!(k1.to_bytes(), derive_prerotation_key(&seed).unwrap().to_bytes());
    assert_eq!(commitment_at_index(&seed, 1).unwrap(), prerotation_commitment(&seed).unwrap());
    let expected = *blake3::hash(k1.verifying_key().as_bytes()).as_bytes();
    assert_eq!(commitment_at_index(&seed, 1).unwrap(), expected);
}

#[test]
fn slip10_master_key_matches_reference_implementation() {
    // SLIP-0010 ed25519 derivation checked against the reference HMAC construction.
    let seed = restore_from_phrase(TEST_MNEMONIC).unwrap();
    let mut mac = <Hmac<sha2::Sha512> as Mac>::new_from_slice(b"ed25519 seed").unwrap();
    mac.update(&seed);
    let i = mac.finalize().into_bytes();
    let (mut key, mut chain) = (i[..32].to_vec(), i[32..].to_vec());
    for idx in [44u32, 7777, 0, 0, 0] {
        let hardened = idx | 0x8000_0000;
        let mut mac = <Hmac<sha2::Sha512> as Mac>::new_from_slice(&chain).unwrap();
        mac.update(&[0u8]);
        mac.update(&key);
        mac.update(&hardened.to_be_bytes());
        let i = mac.finalize().into_bytes();
        key = i[..32].to_vec();
        chain = i[32..].to_vec();
    }
    assert_eq!(derive_active_key(&seed).unwrap().to_bytes().to_vec(), key);
}

#[test]
fn generated_entropy_has_24_words_and_matching_seed() {
    let (phrase, seed) = generate_sovereign_entropy();
    assert_eq!(phrase.split_whitespace().count(), 24);
    assert_eq!(restore_from_phrase(&phrase).unwrap(), seed);
}
