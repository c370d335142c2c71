use tsc::bip39::{self, derive_key_at_index};
use tsc::keri::{self, KeyEvent};
use tsc::persona::Persona;

const TEST_MNEMONIC: &str = "abandon abandon abandon abandon abandon abandon abandon abandon \
     abandon abandon abandon abandon abandon abandon abandon abandon \
     abandon abandon abandon abandon abandon abandon abandon art";

#[test]
fn persona_from_seed_is_deterministic() {
    let seed = bip39::restore_from_phrase(TEST_MNEMONIC).unwrap();
    let p1 = Persona::from_seed(&seed).unwrap();
    let p2 = Persona::from_seed(&seed).unwrap();
    assert_eq!(p1.ghost_id, p2.ghost_id);
}

#[test]
fn persona_ghost_id_nonempty() {
    let seed = bip39::restore_from_phrase(TEST_MNEMONIC).unwrap();
    let p = Persona::from_seed(&seed).unwrap();
    assert!(!p.ghost_id.is_empty());
}

#[test]
fn persona_commitment_nonzero() {
    let seed = bip39::restore_from_phrase(TEST_MNEMONIC).unwrap();
    let p = Persona::from_seed(&seed).unwrap();
    assert_ne!(p.next_key_commitment, [0u8; 32]);
}

#[test]
fn persona_rotate_updates_fields() {
    let seed = bip39::restore_from_phrase(TEST_MNEMONIC).unwrap();
    let mut p = Persona::from_seed(&seed).unwrap();
    let ghost_before = p.ghost_id.clone();
    let key_before = p.active_key.verifying_key().to_bytes();

    p.rotate(&seed).unwrap();

    assert_eq!(p.ghost_id, ghost_before, "GhostID must be stable across rotation");
    assert_ne!(p.active_key.verifying_key().to_bytes(), key_before);
    assert_eq!(p.rotation, 1);
    assert_eq!(p.event_log.len(), 2);
}

#[test]
fn persona_rotate_log_verifies() {
    let seed = bip39::restore_from_phrase(TEST_MNEMONIC).unwrap();
    let mut p = Persona::from_seed(&seed).unwrap();
    p.rotate(&seed).unwrap();
    keri::verify_event_log(&p.event_log).expect("rotated IEL must verify");
}

#[test]
fn persona_double_rotate_verifies() {
    let seed = bip39::restore_from_phrase(TEST_MNEMONIC).unwrap();
    let mut p = Persona::from_seed(&seed).unwrap();
    p.rotate(&seed).unwrap();
    p.rotate(&seed).unwrap();
    assert_eq!(p.rotation, 2);
    keri::verify_event_log(&p.event_log).expect("double-rotated IEL must verify");
}

#[test]
fn persona_log_verifies_to_the_active_key() {
    let seed = bip39::restore_from_phrase(TEST_MNEMONIC).unwrap();
    let mut p = Persona::from_seed(&seed).unwrap();
    for n in 0u32..3 {
        let vk = keri::verify_event_log(&p.event_log).unwrap();
        assert_eq!(vk.to_bytes(), derive_key_at_index(&seed, n).unwrap().verifying_key().to_bytes());
        assert_eq!(p.active_key.to_bytes(), derive_key_at_index(&seed, n).unwrap().to_bytes());
        p.rotate(&seed).unwrap();
    }
}

#[test]
fn persona_ghost_id_is_the_inception_digest() {
    let seed = bip39::restore_from_phrase(TEST_MNEMONIC).unwrap();
    let p = Persona::from_seed(&seed).unwrap();
    match &p.event_log[0] {
        KeyEvent::Inception(e) => {
            assert_eq!(p.ghost_id, hex::encode(e.calculate_digest().unwrap()));
            assert_eq!(p.ghost_id, e.d);
        },
        KeyEvent::Rotation(_) => panic!("first event must be the inception"),
    }
    assert_eq!(p.ghost_id.len(), 64);
}

#[test]
fn rotation_event_records_its_path_and_sequence() {
    let seed = bip39::restore_from_phrase(TEST_MNEMONIC).unwrap();
    let mut p = Persona::from_seed(&seed).unwrap();
    p.rotate(&seed).unwrap();
    let returned = p.rotate(&seed).unwrap().d.clone();
    match &p.event_log[2] {
        KeyEvent::Rotation(r) => {
            // The event returned is the one appended.
            assert_eq!(r.d, returned);
            assert_eq!(r.s, 2);
            assert_eq!(r.di, "m/44'/7777'/0'/0'/2'");
            assert_eq!(r.i, p.ghost_id);
            assert_eq!(r.p, hex::encode(p.event_log[1].digest().unwrap()));
        },
        KeyEvent::Inception(_) => panic!("third event must be a rotation"),
    }
}
