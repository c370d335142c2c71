use tsc::vault::{derive_storage_key, hardware_uuid_from, lock_vault, seal_vault, unlock_vault};

const TEST_HW_UUID: &str = "test-hardware-uuid-12345";

fn test_key_material() -> Vec<u8> {
    vec![0x42u8; 32]
}

#[test]
fn lock_and_unlock_round_trip() {
    let words: Vec<String> = vec!["alpha", "bravo", "charlie"].into_iter().map(|s| s.to_string()).collect();
    let km = test_key_material();

    let data = lock_vault(&words, &km, TEST_HW_UUID).expect("lock must succeed");
    let recovered = unlock_vault(&km, TEST_HW_UUID, &data).expect("unlock must succeed");

    assert_eq!(words, recovered);
}

#[test]
fn unlock_with_wrong_key_fails() {
    let words = vec!["test".to_string()];
    let km = test_key_material();

    let data = lock_vault(&words, &km, TEST_HW_UUID).expect("lock must succeed");

    let wrong_km = vec![0xFFu8; 32];
    let result = unlock_vault(&wrong_km, TEST_HW_UUID, &data);
    assert!(result.is_err(), "wrong key must not decrypt vault");
}

#[test]
fn tampered_vault_fails_authentication() {
    let words = vec!["test".to_string()];
    let km = test_key_material();

    let mut data = lock_vault(&words, &km, TEST_HW_UUID).expect("lock must succeed");
    let last = data.len() - 1;
    data[last] ^= 0xFF;

    let result = unlock_vault(&km, TEST_HW_UUID, &data);
    assert!(result.is_err(), "tampered vault must fail AEAD check");
}

#[test]
fn vault_with_wrong_magic_rejected() {
    let data = b"BADMAGICXXXXXXXXXXXXXXXXXXXXXXXXXXXXXXXXXXXXXXXXXXXXXXX";
    let km = test_key_material();
    let result = unlock_vault(&km, TEST_HW_UUID, data);
    assert!(result.is_err());
}

#[test]
fn sealed_vault_layout() {
    let words = vec!["alpha".to_string(), "bravo".to_string()];
    let km = test_key_material();
    let salt = [9u8; 16];
    let nonce = [5u8; 12];
    let data = seal_vault(&words, &km, TEST_HW_UUID, salt, nonce).unwrap();
    assert_eq!(&data[0..8], b"TSCVAULT");
    assert_eq!(data[8], 0x01);
    assert_eq!(&data[9..25], &salt);
    assert_eq!(&data[25..37], &nonce);
    // The ciphertext length is big-endian.
    assert_eq!(&data[37..41], &[0, 0, 0, 27]);
    let ct_len = u32::from_be_bytes([data[37], data[38], data[39], data[40]]) as usize;
    // "alpha bravo" is 11 bytes; the Poly1305 tag adds 16.
    assert_eq!(ct_len, 11 + 16);
    assert_eq!(data.len(), 41 + ct_len);
    assert_eq!(unlock_vault(&km, TEST_HW_UUID, &data).unwrap(), words);
}

#[test]
fn short_vault_is_corrupted() {
    let e = unlock_vault(&test_key_material(), TEST_HW_UUID, &[0u8; 56]).unwrap_err();
    assert_eq!(e.message(), "CRYPTO:VAULT_CORRUPTED: File too small to be a valid vault");
}

#[test]
fn wrong_version_is_reported_in_hex() {
    let words = vec!["alpha".to_string()];
    let km = test_key_material();
    let mut data = seal_vault(&words, &km, TEST_HW_UUID, [1u8; 16], [2u8; 12]).unwrap();
    data[8] = 0x2a;
    let e = unlock_vault(&km, TEST_HW_UUID, &data).unwrap_err();
    assert_eq!(e.message(), "CRYPTO:VAULT_CORRUPTED: Unsupported vault version: 0x2a");
}

#[test]
fn bad_length_field_is_corrupted() {
    let words = vec!["alpha".to_string()];
    let km = test_key_material();
    let mut data = seal_vault(&words, &km, TEST_HW_UUID, [1u8; 16], [2u8; 12]).unwrap();
    data[37] = 0xff;
    data[38] = 0xff;
    let e = unlock_vault(&km, TEST_HW_UUID, &data).unwrap_err();
    assert_eq!(e.message(), "CRYPTO:VAULT_CORRUPTED: Vault ciphertext length field is corrupt");
}

#[test]
fn wrong_hardware_binding_fails_decryption() {
    let words = vec!["alpha".to_string()];
    let km = test_key_material();
    let data = seal_vault(&words, &km, TEST_HW_UUID, [1u8; 16], [2u8; 12]).unwrap();
    let e = unlock_vault(&km, "another-machine", &data).unwrap_err();
    assert_eq!(e.message(), "CRYPTO:DECRYPTION: Authentication failed — wrong key or tampered vault");
}

#[test]
fn storage_key_depends_on_salt_and_binding() {
    let km = test_key_material();
    let a = derive_storage_key(&km, TEST_HW_UUID, &[1u8; 16]).unwrap();
    let b = derive_storage_key(&km, TEST_HW_UUID, &[1u8; 16]).unwrap();
    let c = derive_storage_key(&km, TEST_HW_UUID, &[2u8; 16]).unwrap();
    let d = derive_storage_key(&km, "other", &[1u8; 16]).unwrap();
    assert_eq!(a, b);
    assert_ne!(a, c);
    assert_ne!(a, d);
}

#[test]
fn hardware_uuid_prefers_trimmed_dmi() {
    let h = hardware_uuid_from(Some("  4c4c4544-0042 \n".to_string()), Some("abc".to_string()));
    assert_eq!(h.id, "4c4c4544-0042");
    assert!(h.warning.is_none());
}

#[test]
fn hardware_uuid_falls_back_to_machine_id_hash() {
    let h = hardware_uuid_from(Some("   ".to_string()), Some(" abc\n".to_string()));
    // SHA-256 of "abc" (FIPS 180-2 test vector).
    assert_eq!(h.id, "ba7816bf8f01cfea414140de5dae2223b00361a396177a9cb410ff61f20015ad");
    assert_eq!(h.warning.unwrap(), "DMI UUID unavailable; using machine-id hash as hardware binding");
}

#[test]
fn hardware_uuid_last_resort_is_random() {
    let h = hardware_uuid_from(None, None);
    assert_eq!(h.id.len(), 64);
    assert_eq!(h.warning.unwrap(), "No stable hardware ID found; generating ephemeral hardware binding");
}
