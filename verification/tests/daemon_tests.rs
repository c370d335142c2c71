use hkdf::Hkdf;
use tsc::bip39::{derive_key_at_index, restore_from_phrase};
use tsc::daemon::{
    boot_choice, connect_direct_response, connect_response, data_frame, derive_dht_key, ephemeral_boot, ephemeral_identity,
    init_identity, load_from_mnemonic, local_response, peer_allowed, plan_rotation, recover_identity,
    resolve_response, send_direct_response, send_message_response, BootChoice, BootVaultState, Delivery, IdentityState,
};
use tsc::gsp::{GspFrame, MsgType};
use tsc::keri::{verify_event_log, KeyEvent};
use tsc::persona::Persona;
use tsc::proto::{GhostCommand, GhostResponse, VaultState};
use tsc::vault::unlock_vault;

const TEST_MNEMONIC: &str = "abandon abandon abandon abandon abandon abandon abandon abandon \
     abandon abandon abandon abandon abandon abandon abandon abandon \
     abandon abandon abandon abandon abandon abandon abandon art";

fn error_text(r: GhostResponse) -> String {
    match r {
        GhostResponse::Error(m) => m,
        other => panic!("expected an error, got {:?}", other),
    }
}

#[test]
fn ping_and_stubs() {
    let id = IdentityState { ghost_id: "abc".to_string(), vault_ok: true };
    match local_response(&GhostCommand::Ping, &id, 0).unwrap() {
        GhostResponse::Ack(m) => assert_eq!(m, "TSC_PULSE_OK"),
        other => panic!("unexpected {:?}", other),
    }
    let spawn = GhostCommand::SpawnGhost { image_hash: "img".to_string(), vault_id: None };
    assert_eq!(error_text(local_response(&spawn, &id, 0).unwrap()), "RUNTIME:NOT_IMPL: SpawnGhost(img) — Phase 3 pending");
    let stop = GhostCommand::StopGhost { ghost_id: "g".to_string() };
    assert_eq!(error_text(local_response(&stop, &id, 0).unwrap()), "RUNTIME:NOT_IMPL: StopGhost(g) — Phase 3 pending");
    assert!(matches!(local_response(&GhostCommand::ListGhosts, &id, 0).unwrap(), GhostResponse::GhostList(v) if v.is_empty()));
    assert!(local_response(&GhostCommand::InitIdentity, &id, 0).is_none());
}

#[test]
fn status_reports_vault_state() {
    let eph = IdentityState { ghost_id: "ephemeral:0011".to_string(), vault_ok: true };
    assert_eq!(eph.status(5).vault_state, VaultState::Ephemeral);
    let unlocked = IdentityState { ghost_id: "abcd".to_string(), vault_ok: true };
    let s = unlocked.status(12);
    assert_eq!(s.vault_state, VaultState::Unlocked);
    assert_eq!(s.uptime_secs, 12);
    assert_eq!(s.peer_count, 0);
    let locked = IdentityState { ghost_id: "abcd".to_string(), vault_ok: false };
    assert_eq!(locked.status(0).vault_state, VaultState::Locked);
}

#[test]
fn boot_state_records_unlock() {
    assert!(IdentityState::at_boot("x".to_string(), &BootVaultState::Unlocked([1u8; 32])).vault_ok);
    assert!(!IdentityState::at_boot("x".to_string(), &BootVaultState::Ephemeral).vault_ok);
}

#[test]
fn peer_credentials() {
    assert!(peer_allowed(1000, 1000));
    assert!(peer_allowed(0, 1000));
    assert!(!peer_allowed(1001, 1000));
}

#[test]
fn network_answers() {
    assert_eq!(error_text(resolve_response("g".to_string(), None)), "NET:NOT_FOUND: GhostID not found in DHT");
    assert_eq!(error_text(connect_response("g".to_string(), None)), "NET:NOT_FOUND: GhostID not found or offline");
    assert!(matches!(connect_response("g".to_string(), Some("1.1.1.1:1".to_string())),
        GhostResponse::LinkEstablished { remote_id, addr } if remote_id == "g" && addr == "1.1.1.1:1"));
    assert_eq!(
        error_text(send_message_response("t".to_string(), Delivery::Unresolved)),
        "NET:NOT_FOUND: Target Ghost offline or unreachable"
    );
    assert_eq!(error_text(send_message_response("t".to_string(), Delivery::ConnectFailed("x".to_string()))), "NET:CONNECT: x");
    assert_eq!(error_text(send_message_response("t".to_string(), Delivery::StreamFailed("y".to_string()))), "NET:STREAM: y");
    assert_eq!(
        error_text(connect_direct_response("nope".to_string(), Delivery::BadAddress)),
        "NET:BAD_ADDR: 'nope' is not a valid IP:port"
    );
    assert_eq!(
        error_text(connect_direct_response("a".to_string(), Delivery::ConnectFailed("z".to_string()))),
        "NET:CONNECT_DIRECT: z"
    );
    match send_direct_response("1.2.3.4:9".to_string(), Delivery::Reached { remote_id: "0123456789abcdef99".to_string() }) {
        GhostResponse::Ack(m) => assert_eq!(m, "DIRECT: Message delivered to 1.2.3.4:9 (peer: 0123456789abcdef)"),
        other => panic!("unexpected {:?}", other),
    }
    match send_direct_response("h".to_string(), Delivery::Reached { remote_id: "unverified".to_string() }) {
        GhostResponse::Ack(m) => assert_eq!(m, "DIRECT: Message delivered to h (peer: unverified)"),
        other => panic!("unexpected {:?}", other),
    }
}

#[test]
fn data_frame_wraps_text() {
    let f = data_frame("héllo".to_string());
    let back = GspFrame::from_bytes(&f).unwrap();
    assert_eq!(back.msg_type, MsgType::Data);
    assert_eq!(back.payload, "héllo".as_bytes().to_vec());
}

#[test]
fn dht_key_is_hkdf_of_key_material() {
    let k = derive_dht_key(&[5u8; 32], "ghost").unwrap();
    let hk = Hkdf::<sha2::Sha256>::new(Some(b"tsc-dht-coord-v1"), &[5u8; 32]);
    let mut expected = [0u8; 32];
    hk.expand(b"ghost", &mut expected).unwrap();
    assert_eq!(k, expected);
    assert_ne!(derive_dht_key(&[5u8; 32], "other").unwrap(), k);
}

#[test]
fn ephemeral_identity_shape() {
    let b = ephemeral_identity([3u8; 32]).unwrap();
    assert!(b.ghost_id.starts_with("ephemeral:"));
    assert_eq!(b.ghost_id.len(), "ephemeral:".len() + 16);
    assert_eq!(b.dht_key, [0u8; 32]);
    assert!(matches!(b.vault_state, BootVaultState::Ephemeral));
    assert!(b.inception.is_none());
    let again = ephemeral_identity([3u8; 32]).unwrap();
    assert_eq!(again.ghost_id, b.ghost_id);
    let other = ephemeral_boot().unwrap();
    assert!(other.ghost_id.starts_with("ephemeral:"));
    assert_eq!(other.ghost_id.len(), "ephemeral:".len() + 16);
    assert!(other.ghost_id["ephemeral:".len()..].bytes().all(|c| c.is_ascii_hexdigit() && !c.is_ascii_uppercase()));
    assert_eq!(other.dht_key, [0u8; 32]);
    assert!(matches!(other.vault_state, BootVaultState::Ephemeral));
    assert!(other.inception.is_none());
    assert!(other.log_warning.is_none());
}

#[test]
fn boot_choice_paths() {
    assert!(matches!(boot_choice(false, "abandon art"), BootChoice::NoVault));
    assert!(matches!(boot_choice(true, "  \n\t"), BootChoice::MissingMnemonic));
    match boot_choice(true, "  abandon art \n") {
        BootChoice::Unlock(m) => assert_eq!(m, "abandon art"),
        other => panic!("unexpected {:?}", other),
    }
}

#[test]
fn boot_reports_the_unlock_error_text() {
    let r = load_from_mnemonic(TEST_MNEMONIC, "hw", Ok(vec![0u8; 10]), vec![]).unwrap();
    assert_eq!(r.err().unwrap(), "CRYPTO:VAULT_CORRUPTED: File too small to be a valid vault");
}

#[test]
fn init_identity_builds_vault_and_persona() {
    let seed = restore_from_phrase(TEST_MNEMONIC).unwrap();
    let plan = init_identity(TEST_MNEMONIC, &seed, "hw").unwrap();
    assert_eq!(plan.words.len(), 24);
    assert_eq!(plan.persona.ghost_id, Persona::from_seed(&seed).unwrap().ghost_id);
    let km = derive_key_at_index(&seed, 0).unwrap().to_bytes();
    assert_eq!(unlock_vault(&km, "hw", &plan.vault_file).unwrap(), plan.words);
}

#[test]
fn recover_identity_checks_the_mnemonic() {
    let e = recover_identity("not a mnemonic", "hw").err().unwrap();
    assert!(e.starts_with("CRYPTO:INVALID_MNEMONIC: "));
    let plan = recover_identity(TEST_MNEMONIC, "hw").ok().unwrap();
    assert!(plan.persona.is_some());
}

#[test]
fn rotation_plan_from_seed_verifies() {
    let seed = restore_from_phrase(TEST_MNEMONIC).unwrap();
    let p = Persona::from_seed(&seed).unwrap();
    let plan = plan_rotation(TEST_MNEMONIC, vec![], &p.ghost_id).ok().unwrap();
    assert_eq!(plan.rotation, 1);
    assert_eq!(plan.log.len(), 2);
    let vk = verify_event_log(&plan.log).unwrap();
    let k1 = derive_key_at_index(&seed, 1).unwrap();
    assert_eq!(vk.to_bytes(), k1.verifying_key().to_bytes());
    // The vault stays sealed under the index-0 key, which boot unlocks it with.
    assert_eq!(plan.key_material, derive_key_at_index(&seed, 0).unwrap().to_bytes());
    assert_eq!(plan.new_public_key, hex::encode(k1.verifying_key().to_bytes()));
    assert_eq!(plan.words.len(), 24);
    match &plan.log[1] {
        KeyEvent::Rotation(r) => assert_eq!(r.di, "m/44'/7777'/0'/0'/1'"),
        KeyEvent::Inception(_) => panic!("expected a rotation"),
    }
    // A second rotation continues the stored log.
    let plan2 = plan_rotation(TEST_MNEMONIC, plan.log, &p.ghost_id).ok().unwrap();
    assert_eq!(plan2.rotation, 2);
    let vk2 = verify_event_log(&plan2.log).unwrap();
    assert_eq!(vk2.to_bytes(), derive_key_at_index(&seed, 2).unwrap().verifying_key().to_bytes());
}

#[test]
fn rotation_refuses_ephemeral_and_bad_mnemonic() {
    let e = plan_rotation(TEST_MNEMONIC, vec![], "ephemeral:abcdef").err().unwrap();
    assert_eq!(e, "IDENTITY:ROTATE: Cannot rotate an ephemeral identity. Run 'init' first.");
    let e = plan_rotation("bogus words", vec![], "abc").err().unwrap();
    assert!(e.starts_with("IDENTITY:ROTATE: CRYPTO:INVALID_MNEMONIC: "));
}

#[test]
fn rotation_refuses_a_stored_log_that_does_not_verify() {
    let seed = restore_from_phrase(TEST_MNEMONIC).unwrap();
    let p = Persona::from_seed(&seed).unwrap();
    let mut log = plan_rotation(TEST_MNEMONIC, vec![], &p.ghost_id).ok().unwrap().log;
    if let KeyEvent::Rotation(r) = &mut log[1] {
        r.s = 7;
    }
    let e = plan_rotation(TEST_MNEMONIC, log, &p.ghost_id).err().unwrap();
    assert!(e.starts_with("IDENTITY:ROTATE: CRYPTO:INVALID_EVENT_LOG: "));
    // A stored log with a keyless inception cannot be read at all.
    let mut log = p.event_log.clone();
    if let KeyEvent::Inception(e) = &mut log[0] {
        e.k.clear();
    }
    let e = plan_rotation(TEST_MNEMONIC, log, &p.ghost_id).err().unwrap();
    assert_eq!(e, "IDENTITY:ROTATE: CRYPTO:INVALID_EVENT_LOG: An event of the stored log has no key");
}

#[test]
fn vault_resealed_at_rotation_unlocks_at_boot() {
    let seed = restore_from_phrase(TEST_MNEMONIC).unwrap();
    let init = init_identity(TEST_MNEMONIC, &seed, "hw").unwrap();
    let plan = plan_rotation(TEST_MNEMONIC, init.persona.event_log.clone(), &init.persona.ghost_id).ok().unwrap();
    let sealed = tsc::vault::lock_vault(&plan.words, &plan.key_material, "hw").unwrap();
    let b = load_from_mnemonic(TEST_MNEMONIC, "hw", Ok(sealed), plan.log.clone()).unwrap().ok().unwrap();
    assert_eq!(b.ghost_id, init.persona.ghost_id);
    assert!(matches!(b.vault_state, BootVaultState::Unlocked(_)));
}

#[test]
fn init_then_status_reports_the_new_identity() {
    let seed = restore_from_phrase(TEST_MNEMONIC).unwrap();
    let init = init_identity(TEST_MNEMONIC, &seed, "hw").unwrap();
    let mut id = IdentityState::at_boot("ephemeral:0123456789abcdef".to_string(), &BootVaultState::Ephemeral);
    id.adopt(init.persona.ghost_id.clone());
    match local_response(&GhostCommand::Status, &id, 5).unwrap() {
        GhostResponse::Status(s) => {
            assert_eq!(s.ghost_id, Persona::from_seed(&seed).unwrap().ghost_id);
            assert_eq!(s.vault_state, VaultState::Unlocked);
        }
        other => panic!("unexpected {:?}", other),
    }
    let k1 = derive_key_at_index(&seed, 0).unwrap().to_bytes();
    assert_eq!(unlock_vault(&k1, "hw", &init.vault_file).unwrap(), init.words);
    assert_eq!(init.words.len(), 24);
}

#[test]
fn boot_from_mnemonic() {
    let seed = restore_from_phrase(TEST_MNEMONIC).unwrap();
    let init = init_identity(TEST_MNEMONIC, &seed, "hw").unwrap();
    let b = load_from_mnemonic(TEST_MNEMONIC, "hw", Ok(init.vault_file.clone()), vec![]).unwrap().ok().unwrap();
    assert_eq!(b.ghost_id, init.persona.ghost_id);
    let km = derive_key_at_index(&seed, 0).unwrap().to_bytes();
    assert_eq!(b.dht_key, derive_dht_key(&km, &b.ghost_id).unwrap());
    assert!(matches!(b.vault_state, BootVaultState::Unlocked(k) if k == km));
    assert_eq!(b.inception.unwrap().d, init.persona.ghost_id);
    assert!(b.log_warning.is_none());

    let e = load_from_mnemonic(TEST_MNEMONIC, "hw", Err("Vault not found at /x: gone".to_string()), vec![]).unwrap().err().unwrap();
    assert_eq!(e, "CRYPTO:IO: Vault not found at /x: gone");
    let e = load_from_mnemonic(TEST_MNEMONIC, "other-hw", Ok(init.vault_file.clone()), vec![]).unwrap().err().unwrap();
    assert!(e.starts_with("CRYPTO:DECRYPTION: "));
}

#[test]
fn boot_sets_aside_a_log_that_does_not_verify() {
    let seed = restore_from_phrase(TEST_MNEMONIC).unwrap();
    let init = init_identity(TEST_MNEMONIC, &seed, "hw").unwrap();
    let other_seed = [9u8; 64];
    let stranger = Persona::from_seed(&other_seed).unwrap();
    let mut broken = stranger.event_log;
    if let KeyEvent::Inception(e) = &mut broken[0] {
        e.sig = "00".repeat(64);
    }
    let b = load_from_mnemonic(TEST_MNEMONIC, "hw", Ok(init.vault_file.clone()), broken).unwrap().ok().unwrap();
    assert!(b.log_warning.unwrap().starts_with("[WARN] IEL verification failed ("));
    assert_eq!(b.inception.unwrap().d, init.persona.ghost_id);
    // A stored log whose inception event has no key cannot be read at all.
    let mut keyless = Persona::from_seed(&other_seed).unwrap().event_log;
    if let KeyEvent::Inception(e) = &mut keyless[0] {
        e.k.clear();
    }
    assert!(load_from_mnemonic(TEST_MNEMONIC, "hw", Ok(init.vault_file), keyless).is_none());
}
