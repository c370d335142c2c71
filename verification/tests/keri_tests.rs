use tsc::keri::{check_event_log, verify_event_log, InceptionEvent, KeyEvent, RotationEvent};
use tsc::keys::SigningKey;

fn fresh_key() -> SigningKey {
    SigningKey::from_bytes(&rand::random::<[u8; 32]>())
}

fn commitment(k: &SigningKey) -> [u8; 32] {
    *blake3::hash(k.verifying_key().as_bytes()).as_bytes()
}

#[test]
fn inception_self_signs() {
    let k1 = fresh_key();
    let ixn = InceptionEvent::new(&k1, commitment(&fresh_key())).unwrap();
    ixn.verify_signature().unwrap();
}

#[test]
fn inception_d_equals_i_and_nonempty() {
    let k1 = fresh_key();
    let ixn = InceptionEvent::new(&k1, commitment(&fresh_key())).unwrap();
    assert_eq!(ixn.d, ixn.i);
    assert!(!ixn.d.is_empty());
}

#[test]
fn inception_rejects_zero_commitment() {
    assert!(InceptionEvent::new(&fresh_key(), [0u8; 32]).is_err());
}

#[test]
fn single_event_log_verifies() {
    let k1 = fresh_key();
    let ixn = InceptionEvent::new(&k1, commitment(&fresh_key())).unwrap();
    verify_event_log(&[KeyEvent::Inception(ixn)]).unwrap();
}

#[test]
fn rotation_chain_ixn_rot_verifies() {
    let k1 = fresh_key();
    let k2 = fresh_key();
    let k3 = fresh_key();

    let ixn = InceptionEvent::new(&k1, commitment(&k2)).unwrap();
    let ghost_id = hex::encode(ixn.calculate_digest().unwrap());
    let ixn_digest = ixn.calculate_digest().unwrap();

    let rot = RotationEvent::new(
        &k1,
        &k2,
        commitment(&k3),
        ixn_digest,
        1,
        &ghost_id,
        "m/44'/7777'/0'/0'/1'",
    )
    .unwrap();

    let log = vec![KeyEvent::Inception(ixn), KeyEvent::Rotation(rot)];

    let current_vk = verify_event_log(&log).unwrap();
    assert_eq!(current_vk.as_bytes(), k2.verifying_key().as_bytes());
}

#[test]
fn rotation_ghost_id_unchanged() {
    let k1 = fresh_key();
    let k2 = fresh_key();
    let k3 = fresh_key();

    let ixn = InceptionEvent::new(&k1, commitment(&k2)).unwrap();
    let ghost_id = ixn.i.clone();
    let ixn_digest = ixn.calculate_digest().unwrap();

    let rot = RotationEvent::new(&k1, &k2, commitment(&k3), ixn_digest, 1, &ghost_id, "m/44'/7777'/0'/0'/1'")
        .unwrap();

    assert_eq!(rot.i, ghost_id);
}

#[test]
fn rotation_wrong_commitment_rejected() {
    let k1 = fresh_key();
    let k2 = fresh_key();
    let k3 = fresh_key();
    let ixn = InceptionEvent::new(&k1, commitment(&k3)).unwrap();
    let digest = ixn.calculate_digest().unwrap();
    let gid = ixn.i.clone();

    let rot = RotationEvent::new(&k1, &k2, commitment(&k3), digest, 1, &gid, "m/44'/7777'/0'/0'/1'").unwrap();

    let log = vec![KeyEvent::Inception(ixn), KeyEvent::Rotation(rot)];
    assert!(verify_event_log(&log).is_err());
}

#[test]
fn double_rotation_verifies() {
    let k1 = fresh_key();
    let k2 = fresh_key();
    let k3 = fresh_key();
    let k4 = fresh_key();

    let ixn = InceptionEvent::new(&k1, commitment(&k2)).unwrap();
    let gid = ixn.i.clone();
    let d0 = ixn.calculate_digest().unwrap();

    let rot1 = RotationEvent::new(&k1, &k2, commitment(&k3), d0, 1, &gid, "m/44'/7777'/0'/0'/1'").unwrap();
    let d1 = rot1.calculate_digest().unwrap();

    let rot2 = RotationEvent::new(&k2, &k3, commitment(&k4), d1, 2, &gid, "m/44'/7777'/0'/0'/2'").unwrap();

    let log = vec![KeyEvent::Inception(ixn), KeyEvent::Rotation(rot1), KeyEvent::Rotation(rot2)];

    let vk = verify_event_log(&log).unwrap();
    assert_eq!(vk.as_bytes(), k3.verifying_key().as_bytes());
}

#[test]
fn inception_fields_follow_the_protocol() {
    let k1 = fresh_key();
    let k2 = fresh_key();
    let ixn = InceptionEvent::new(&k1, commitment(&k2)).unwrap();
    assert_eq!(ixn.v, "TSC2.0");
    assert_eq!(ixn.t, "ixn");
    assert_eq!(ixn.s, 0);
    assert_eq!(ixn.kt, 1);
    assert_eq!(ixn.di, "m/44'/7777'/0'/0'/0'");
    assert_eq!(ixn.n, hex::encode(commitment(&k2)));
    assert_eq!(ixn.d, hex::encode(ixn.calculate_digest().unwrap()));
    assert_eq!(ixn.k.len(), 1);
    assert_eq!(ixn.sig.len(), 128);
}

#[test]
fn tampered_inception_signature_fails() {
    let k1 = fresh_key();
    let mut ixn = InceptionEvent::new(&k1, commitment(&fresh_key())).unwrap();
    ixn.n = hex::encode([7u8; 32]);
    let e = ixn.verify_signature().unwrap_err();
    assert!(e.message().starts_with("CRYPTO:SIGNATURE_INVALID: "));
}

#[test]
fn empty_log_is_refused() {
    let e = verify_event_log(&[]).unwrap_err();
    assert_eq!(e.message(), "CRYPTO:INVALID_EVENT_LOG: Event log is empty");
}

#[test]
fn log_starting_with_rotation_is_refused() {
    let k1 = fresh_key();
    let k2 = fresh_key();
    let rot = RotationEvent::new(&k1, &k2, commitment(&fresh_key()), [1u8; 32], 1, "x", "p").unwrap();
    let e = verify_event_log(&[KeyEvent::Rotation(rot)]).unwrap_err();
    assert_eq!(e.message(), "CRYPTO:INVALID_EVENT_LOG: First event must be Inception");
}

#[test]
fn rotation_with_wrong_sequence_is_refused() {
    let k1 = fresh_key();
    let k2 = fresh_key();
    let ixn = InceptionEvent::new(&k1, commitment(&k2)).unwrap();
    let gid = ixn.i.clone();
    let d0 = ixn.calculate_digest().unwrap();
    let rot = RotationEvent::new(&k1, &k2, commitment(&fresh_key()), d0, 5, &gid, "p").unwrap();
    let r = verify_event_log(&[KeyEvent::Inception(ixn), KeyEvent::Rotation(rot)]);
    assert!(r.unwrap_err().message().starts_with("CRYPTO:INVALID_EVENT_LOG: "));
}

#[test]
fn key_event_seq_and_digest() {
    let k1 = fresh_key();
    let ixn = InceptionEvent::new(&k1, commitment(&fresh_key())).unwrap();
    let d = ixn.calculate_digest().unwrap();
    let ev = KeyEvent::Inception(ixn);
    assert_eq!(ev.seq(), 0);
    assert_eq!(ev.digest().unwrap(), d);
}

#[test]
fn inception_json_is_canonical() {
    // The digest covers the RFC 8785 JSON (keys sorted, no whitespace) with
    // d, i and sig blank.
    let k1 = SigningKey::from_bytes(&[1u8; 32]);
    let ixn = InceptionEvent::new(&k1, [2u8; 32]).unwrap();
    let json = format!(
        "{{\"d\":\"\",\"di\":\"m/44'/7777'/0'/0'/0'\",\"i\":\"\",\"k\":[\"{}\"],\"kt\":1,\"n\":\"{}\",\"s\":0,\"sig\":\"\",\"t\":\"ixn\",\"v\":\"TSC2.0\"}}",
        ixn.k[0], ixn.n
    );
    assert_eq!(ixn.calculate_digest().unwrap(), *blake3::hash(json.as_bytes()).as_bytes());
}

#[test]
fn rotation_json_is_canonical() {
    let k1 = SigningKey::from_bytes(&[1u8; 32]);
    let k2 = SigningKey::from_bytes(&[3u8; 32]);
    let rot = RotationEvent::new(&k1, &k2, [4u8; 32], [5u8; 32], 1, "gid", "m/44'/7777'/0'/0'/1'").unwrap();
    let json = format!(
        "{{\"d\":\"\",\"di\":\"m/44'/7777'/0'/0'/1'\",\"i\":\"gid\",\"k\":[\"{}\"],\"n\":\"{}\",\"p\":\"{}\",\"s\":1,\"sig_new\":\"\",\"sig_prev\":\"\",\"t\":\"rot\",\"v\":\"TSC2.0\"}}",
        rot.k[0], rot.n, rot.p
    );
    assert_eq!(rot.calculate_digest().unwrap(), *blake3::hash(json.as_bytes()).as_bytes());
}

fn ixn_signed_json(e: &InceptionEvent) -> String {
    format!(
        "{{\"d\":\"{}\",\"di\":\"{}\",\"i\":\"{}\",\"k\":[\"{}\"],\"kt\":1,\"n\":\"{}\",\"s\":0,\"sig\":\"\",\"t\":\"ixn\",\"v\":\"TSC2.0\"}}",
        e.d, e.di, e.i, e.k[0], e.n
    )
}

fn rot_signed_json(e: &RotationEvent) -> String {
    format!(
        "{{\"d\":\"{}\",\"di\":\"{}\",\"i\":\"{}\",\"k\":[\"{}\"],\"n\":\"{}\",\"p\":\"{}\",\"s\":{},\"sig_new\":\"\",\"sig_prev\":\"\",\"t\":\"rot\",\"v\":\"TSC2.0\"}}",
        e.d, e.di, e.i, e.k[0], e.n, e.p, e.s
    )
}

#[test]
fn all_zero_inception_commitment_is_refused() {
    let k1 = SigningKey::from_bytes(&[1u8; 32]);
    let mut ixn = InceptionEvent::new(&k1, [2u8; 32]).unwrap();
    // The signature of an untouched event verifies over the same JSON text.
    assert_eq!(hex::encode(k1.sign(ixn_signed_json(&ixn).as_bytes())), ixn.sig);
    ixn.n = hex::encode([0u8; 32]);
    ixn.d = hex::encode(ixn.calculate_digest().unwrap());
    ixn.i = ixn.d.clone();
    ixn.sig = hex::encode(k1.sign(ixn_signed_json(&ixn).as_bytes()));
    assert!(ixn.verify_signature().is_ok());
    let err = verify_event_log(&[KeyEvent::Inception(ixn)]).unwrap_err();
    assert_eq!(err.message(), "CRYPTO:INVALID_EVENT_LOG: Inception commitment is all-zero");
}

#[test]
fn all_zero_rotation_commitment_is_refused() {
    let k1 = SigningKey::from_bytes(&[1u8; 32]);
    let k2 = SigningKey::from_bytes(&[3u8; 32]);
    let ixn = InceptionEvent::new(&k1, *blake3::hash(k2.verifying_key().as_bytes()).as_bytes()).unwrap();
    let d0 = ixn.calculate_digest().unwrap();
    let mut rot = RotationEvent::new(&k1, &k2, [4u8; 32], d0, 1, &ixn.i, "m/44'/7777'/0'/0'/1'").unwrap();
    assert!(verify_event_log(&[KeyEvent::Inception(ixn.clone()), KeyEvent::Rotation(rot.clone())]).is_ok());
    rot.n = hex::encode([0u8; 32]);
    rot.d = hex::encode(rot.calculate_digest().unwrap());
    let msg = rot_signed_json(&rot);
    rot.sig_prev = hex::encode(k1.sign(msg.as_bytes()));
    rot.sig_new = hex::encode(k2.sign(msg.as_bytes()));
    let err = verify_event_log(&[KeyEvent::Inception(ixn), KeyEvent::Rotation(rot)]).unwrap_err();
    assert_eq!(err.message(), "CRYPTO:INVALID_EVENT_LOG: ROT: next pre-rotation commitment is all-zero");
}

#[test]
fn keyless_events_are_reported_unreadable() {
    let k1 = fresh_key();
    let k2 = fresh_key();
    let mut ixn = InceptionEvent::new(&k1, commitment(&k2)).unwrap();
    let gid = ixn.i.clone();
    let d0 = ixn.calculate_digest().unwrap();
    let mut rot = RotationEvent::new(&k1, &k2, commitment(&fresh_key()), d0, 1, &gid, "p").unwrap();
    rot.k.clear();
    assert!(check_event_log(&[KeyEvent::Inception(ixn.clone()), KeyEvent::Rotation(rot.clone())]).is_none());
    // A rotation that fails before its key is read is an ordinary error.
    rot.s = 9;
    assert!(check_event_log(&[KeyEvent::Inception(ixn.clone()), KeyEvent::Rotation(rot)]).unwrap().is_err());
    ixn.k.clear();
    assert!(check_event_log(&[KeyEvent::Inception(ixn)]).is_none());
}
