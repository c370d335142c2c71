use tsc::dht::{GhostDiscovery, SocketAddress};
use tsc::gsp::{encode_hello, GspFrame, GspHello, MsgType};
use tsc::keri::InceptionEvent;
use tsc::keys::SigningKey;
use tsc::net::{announce_address, classify_ingress, is_own_id, next_chaff, peer_identity, reannouncement, Ingress};

fn hello(seed: u8) -> GspHello {
    let k = SigningKey::from_bytes(&[seed; 32]);
    let c = *blake3::hash(SigningKey::from_bytes(&[seed ^ 0x55; 32]).verifying_key().as_bytes()).as_bytes();
    let inception = InceptionEvent::new(&k, c).unwrap();
    let ghost_id = hex::encode(inception.calculate_digest().unwrap());
    GspHello { ghost_id, inception }
}

#[test]
fn peer_identity_from_hello() {
    let h = hello(1);
    let id = h.ghost_id.clone();
    let p = peer_identity(&encode_hello(&h));
    assert_eq!(p.ghost_id, id);
    assert!(p.rejection.is_none());
}

#[test]
fn peer_without_hello_is_unverified() {
    let p = peer_identity(&[]);
    assert_eq!(p.ghost_id, "unverified");
    assert!(p.rejection.is_none());
}

#[test]
fn peer_with_forged_id_is_unverified() {
    let mut h = hello(2);
    h.ghost_id = "f".repeat(64);
    let p = peer_identity(&encode_hello(&h));
    assert_eq!(p.ghost_id, "unverified");
    assert!(p.rejection.unwrap().starts_with("KERI:ID_MISMATCH: claimed ffffffffffffffff"));
}

#[test]
fn peer_with_short_forged_id_is_unverified() {
    let mut h = hello(3);
    h.ghost_id = "short".to_string();
    let p = peer_identity(&encode_hello(&h));
    assert_eq!(p.ghost_id, "unverified");
    assert!(p.rejection.unwrap().starts_with("KERI:ID_MISMATCH: claimed short but inception hashes to "));
}

#[test]
fn ingress_kinds() {
    assert!(matches!(classify_ingress(&GspFrame::new(MsgType::Chaff, vec![1, 2]).to_bytes()), Ingress::Chaff));
    match classify_ingress(&GspFrame::new(MsgType::Data, b"hi".to_vec()).to_bytes()) {
        Ingress::Framed(t) => assert_eq!(t, "hi"),
        other => panic!("unexpected {:?}", other),
    }
    match classify_ingress(b"legacy text") {
        Ingress::Plain(t) => assert_eq!(t, "legacy text"),
        other => panic!("unexpected {:?}", other),
    }
    assert!(matches!(classify_ingress(&GspFrame::new(MsgType::Data, vec![0xff]).to_bytes()), Ingress::Unreadable));
    assert!(matches!(classify_ingress(&[0xff, 0xfe]), Ingress::Unreadable));
}

#[test]
fn announced_address() {
    let a = announce_address(SocketAddress::V4 { ip: [0, 0, 0, 0], port: 9090 });
    assert_eq!(a, SocketAddress::V4 { ip: [127, 0, 0, 1], port: 9090 });
    let a = announce_address(SocketAddress::V6 { ip: [0u8; 16], port: 1 });
    assert_eq!(a, SocketAddress::V4 { ip: [127, 0, 0, 1], port: 1 });
    let b = SocketAddress::V4 { ip: [10, 0, 0, 2], port: 5 };
    assert_eq!(announce_address(b), b);
}

#[test]
fn own_id_lookup() {
    assert!(is_own_id(b"abc", "abc"));
    assert!(!is_own_id(b"abd", "abc"));
}

#[test]
fn chaff_frames() {
    for _ in 0..20 {
        let (jitter, bytes) = next_chaff();
        assert!((50..150).contains(&jitter));
        let f = GspFrame::from_bytes(&bytes).unwrap();
        assert_eq!(f.msg_type, MsgType::Chaff);
        assert!((64..512).contains(&f.payload.len()));
        assert_eq!(f.length as usize, f.payload.len());
    }
}

#[test]
fn reannouncement_encodes_the_announced_address() {
    let d = GhostDiscovery::new("me".to_string(), [4u8; 32]);
    let r = reannouncement(&d, "gid".to_string(), SocketAddress::V4 { ip: [0, 0, 0, 0], port: 7 }).unwrap();
    assert_eq!(r.ghost_id, "gid");
    assert_eq!(d.decode_coordinate(&r.value), Some(SocketAddress::V4 { ip: [127, 0, 0, 1], port: 7 }));
}

#[test]
fn peer_with_keyless_inception_is_unverified() {
    let mut h = hello(4);
    h.inception.k.clear();
    let p = peer_identity(&encode_hello(&h));
    assert_eq!(p.ghost_id, "unverified");
    assert!(p.rejection.unwrap().starts_with("KERI:BAD_SIGNATURE: "));
}
