use aes_gcm::aead::{Aead, KeyInit};
use tsc::dht::{CoordinateBlob, GhostDiscovery, SocketAddress};
use tsc::encoding::{base64_encode_no_pad, base64url, base64url_decode};
use tsc::gsp::{decode_hello, encode_hello, hello_bytes, verify_hello, GspFrame, GspHello, MsgType};
use tsc::keri::{parse_signature, InceptionEvent};
use tsc::keys::SigningKey;
use tsc::proto::{frame_length, frame_payload, FrameError};
use tsc::wire::{push_str, push_str_list, push_u64, read_str, read_str_list, read_u64, read_u8};

fn commitment(k: &SigningKey) -> [u8; 32] {
    *blake3::hash(k.verifying_key().as_bytes()).as_bytes()
}

fn own_hello(seed: u8) -> GspHello {
    let k = SigningKey::from_bytes(&[seed; 32]);
    let next = SigningKey::from_bytes(&[seed.wrapping_add(1); 32]);
    let inception = InceptionEvent::new(&k, commitment(&next)).unwrap();
    let ghost_id = hex::encode(inception.calculate_digest().unwrap());
    GspHello { ghost_id, inception }
}

// ── base64 / hex ──────────────────────────────────────────────────────────

#[test]
fn base64url_known_values() {
    assert_eq!(base64url(b""), "");
    assert_eq!(base64url(b"f"), "Zg");
    assert_eq!(base64url(b"fo"), "Zm8");
    assert_eq!(base64url(b"foo"), "Zm9v");
    assert_eq!(base64url(&[0xfb, 0xff]), "-_8");
}

#[test]
fn base64_standard_alphabet_without_padding() {
    assert_eq!(base64_encode_no_pad(&[0xfb, 0xff]), "+/8");
    assert_eq!(base64_encode_no_pad(b"foobar"), "Zm9vYmFy");
}

#[test]
fn base64url_length_and_alphabet() {
    for n in 0..20usize {
        let data: Vec<u8> = (0..n).map(|i| (i * 37 + 250) as u8).collect();
        let s = base64url(&data);
        assert_eq!(s.len(), 4 * (n / 3) + [0, 2, 3][n % 3]);
        assert!(s.bytes().all(|c| c.is_ascii_alphanumeric() || c == b'-' || c == b'_'));
    }
    assert_eq!(base64url(&[0xfb, 0xff]), "-_8");
}

#[test]
fn base64url_round_trip() {
    for n in 0..40usize {
        let data: Vec<u8> = (0..n).map(|i| (i * 37 + 11) as u8).collect();
        assert_eq!(base64url_decode(&base64url(&data)).unwrap(), data);
    }
}

#[test]
fn base64url_decode_rejects_foreign_characters() {
    assert!(base64url_decode("Zm9+").is_err());
    assert!(base64url_decode("Z=").is_err());
    // A lone trailing character carries no whole byte and is skipped.
    assert_eq!(base64url_decode("Zm9vZ").unwrap(), b"foo".to_vec());
}

#[test]
fn hex_round_trip_and_case() {
    // Encoding: the commitment of an inception event is written in lower-case hex.
    let k = SigningKey::from_bytes(&[7u8; 32]);
    let mut c = [0u8; 32];
    c[0] = 0x00;
    c[1] = 0xab;
    c[2] = 0xff;
    let e = InceptionEvent::new(&k, c).unwrap();
    assert_eq!(e.n, format!("00abff{}", "00".repeat(29)));
    // Decoding accepts either case.
    let sig = parse_signature(&format!("00ABff{}", "00".repeat(61))).unwrap();
    assert_eq!(&sig[..3], &[0x00, 0xab, 0xff]);
    assert!(parse_signature(&format!("abc{}", "00".repeat(62))).is_err());
    assert!(parse_signature(&"zz".repeat(64)).is_err());
}

// ── GSP frames ────────────────────────────────────────────────────────────

#[test]
fn gsp_frame_layout() {
    // length:u32 (big-endian) | type:u8 | payload
    let f = GspFrame::new(MsgType::Data, vec![0xAB]);
    assert_eq!(f.length, 1);
    assert_eq!(f.to_bytes(), vec![0, 0, 0, 1, 0x02, 0xAB]);
    let f = GspFrame::new(MsgType::Data, b"hello".to_vec());
    let mut expected = vec![0, 0, 0, 5, 0x02];
    expected.extend_from_slice(b"hello");
    assert_eq!(f.to_bytes(), expected);
}

#[test]
fn gsp_frame_round_trip() {
    for (t, code) in [(MsgType::Control, 0x01u8), (MsgType::Data, 0x02), (MsgType::Migration, 0x03), (MsgType::Chaff, 0xFF)] {
        let bytes = GspFrame::new(t, vec![1, 2, 3]).to_bytes();
        assert_eq!(bytes[4], code);
        let back = GspFrame::from_bytes(&bytes).unwrap();
        assert_eq!(back.msg_type, t);
        assert_eq!(back.payload, vec![1, 2, 3]);
        assert_eq!(back.length, 3);
    }
    let big = vec![7u8; 0x1_0203];
    let bytes = GspFrame::new(MsgType::Data, big.clone()).to_bytes();
    assert_eq!(&bytes[..4], &[0, 1, 2, 3]);
    assert_eq!(GspFrame::from_bytes(&bytes).unwrap().payload, big);
}

#[test]
fn gsp_frame_rejects_short_or_unknown() {
    assert!(GspFrame::from_bytes(&[0u8; 4]).is_none());
    assert!(GspFrame::from_bytes(&[0, 0, 0, 0, 0x02]).unwrap().payload.is_empty());
    let mut bytes = GspFrame::new(MsgType::Data, vec![9]).to_bytes();
    bytes[4] = 7;
    assert!(GspFrame::from_bytes(&bytes).is_none());
    let bytes = GspFrame::new(MsgType::Data, vec![9, 9]).to_bytes();
    assert!(GspFrame::from_bytes(&bytes[..bytes.len() - 1]).is_none());
}

#[test]
fn gsp_frame_ignores_trailing_bytes() {
    let mut bytes = GspFrame::new(MsgType::Control, vec![4, 5]).to_bytes();
    bytes.extend_from_slice(&[0xee; 3]);
    assert_eq!(GspFrame::from_bytes(&bytes).unwrap().payload, vec![4, 5]);
}

#[test]
fn msg_type_codes() {
    assert_eq!(MsgType::Control.code(), 0x01);
    assert_eq!(MsgType::Data.code(), 0x02);
    assert_eq!(MsgType::Migration.code(), 0x03);
    assert_eq!(MsgType::Chaff.code(), 0xFF);
}

// ── HELLO ─────────────────────────────────────────────────────────────────

#[test]
fn hello_payload_matches_bincode() {
    let h = own_hello(3);
    let e = &h.inception;
    let expected = bincode::serialize(&(
        h.ghost_id.clone(),
        (e.v.clone(), e.t.clone(), e.d.clone(), e.i.clone(), e.s, e.kt, e.k.clone(), e.n.clone(), e.di.clone(), e.sig.clone()),
    ))
    .unwrap();
    assert_eq!(hello_bytes(&h), expected);
}

#[test]
fn hello_round_trip_and_verify() {
    let h = own_hello(5);
    let bytes = encode_hello(&h);
    let back = decode_hello(&bytes).unwrap();
    assert_eq!(back.ghost_id, h.ghost_id);
    assert_eq!(back.inception.sig, h.inception.sig);
    assert_eq!(back.inception.k, h.inception.k);
    assert_eq!(verify_hello(&back).unwrap(), h.ghost_id);
}

#[test]
fn hello_in_data_frame_is_refused() {
    let h = own_hello(6);
    let payload = hello_bytes(&h);
    let bytes = GspFrame::new(MsgType::Data, payload).to_bytes();
    assert!(decode_hello(&bytes).is_none());
}

#[test]
fn hello_with_wrong_id_is_refused() {
    let mut h = own_hello(7);
    let real = h.ghost_id.clone();
    h.ghost_id = "0123456789abcdef0123456789abcdef0123456789abcdef0123456789abcdef".to_string();
    let err = verify_hello(&h).unwrap_err();
    assert_eq!(err, format!("KERI:ID_MISMATCH: claimed 0123456789abcdef but inception hashes to {}", &real[..16]));
}

#[test]
fn hello_with_bad_signature_is_refused() {
    let mut h = own_hello(8);
    h.inception.n = hex::encode([1u8; 32]);
    let err = verify_hello(&h).unwrap_err();
    assert!(err.starts_with("KERI:BAD_SIGNATURE: CRYPTO:SIGNATURE_INVALID: "));
}

#[test]
fn hello_with_keyless_inception_is_refused() {
    let mut h = own_hello(9);
    h.inception.k.clear();
    let err = verify_hello(&h).unwrap_err();
    assert_eq!(err, "KERI:BAD_SIGNATURE: CRYPTO:SIGNATURE_INVALID: Inception event carries no key");
}

#[test]
fn hello_with_short_wrong_id_quotes_it_whole() {
    let mut h = own_hello(10);
    let real = h.ghost_id.clone();
    h.ghost_id = "short".to_string();
    let err = verify_hello(&h).unwrap_err();
    assert_eq!(err, format!("KERI:ID_MISMATCH: claimed short but inception hashes to {}", &real[..16]));
}

#[test]
fn inception_digest_covers_canonical_json() {
    let h = own_hello(11);
    let e = &h.inception;
    // RFC 8785: no whitespace, keys in lexicographic order; d, i, sig blank.
    let json = format!(
        "{{\"d\":\"\",\"di\":\"{}\",\"i\":\"\",\"k\":[\"{}\"],\"kt\":1,\"n\":\"{}\",\"s\":0,\"sig\":\"\",\"t\":\"ixn\",\"v\":\"TSC2.0\"}}",
        e.di, e.k[0], e.n
    );
    assert_eq!(e.calculate_digest().unwrap(), *blake3::hash(json.as_bytes()).as_bytes());
    assert_eq!(h.ghost_id, hex::encode(blake3::hash(json.as_bytes()).as_bytes()));
}

// ── Wire primitives ───────────────────────────────────────────────────────

#[test]
fn wire_values_round_trip() {
    let mut out = Vec::new();
    push_u64(&mut out, 0x0102030405060708);
    push_str(&mut out, "héllo");
    push_str_list(&mut out, &["a".to_string(), "bc".to_string()]);
    out.push(9);
    assert_eq!(&out[0..8], &[8, 7, 6, 5, 4, 3, 2, 1]);
    let (v, p) = read_u64(&out, 0).unwrap();
    assert_eq!(v, 0x0102030405060708);
    let (s, p) = read_str(&out, p).unwrap();
    assert_eq!(s, "héllo");
    let (l, p) = read_str_list(&out, p).unwrap();
    assert_eq!(l, vec!["a".to_string(), "bc".to_string()]);
    let (b, p) = read_u8(&out, p).unwrap();
    assert_eq!(b, 9);
    assert_eq!(p, out.len());
    assert!(read_u8(&out, p).is_none());
}

#[test]
fn wire_string_must_be_utf8_and_complete() {
    let mut out = Vec::new();
    push_u64(&mut out, 2);
    out.extend_from_slice(&[0xff, 0xfe]);
    assert!(read_str(&out, 0).is_none());
    let mut out = Vec::new();
    push_u64(&mut out, 5);
    out.extend_from_slice(b"abc");
    assert!(read_str(&out, 0).is_none());
}

// ── IPC framing ───────────────────────────────────────────────────────────

#[test]
fn ipc_frame_prefixes_length() {
    assert_eq!(frame_payload(b"abc"), vec![3, 0, 0, 0, b'a', b'b', b'c']);
}

#[test]
fn ipc_frame_length_limit() {
    assert_eq!(frame_length(65536u32.to_le_bytes()).unwrap(), 65536);
    match frame_length(65537u32.to_le_bytes()) {
        Err(FrameError::FrameTooLarge(n)) => assert_eq!(n, 65537),
        other => panic!("unexpected {:?}", other),
    }
}

#[test]
fn frame_error_messages() {
    assert_eq!(FrameError::FrameTooLarge(70000).message(), "IPC frame too large: 70000 bytes (max 65536)");
    assert_eq!(FrameError::Io("x".to_string()).message(), "IPC I/O error: x");
    assert_eq!(FrameError::Serialize("y".to_string()).message(), "IPC serialize error: y");
    assert_eq!(FrameError::Deserialize("z".to_string()).message(), "IPC deserialize error: z");
}

// ── DHT records ───────────────────────────────────────────────────────────

#[test]
fn coordinate_round_trip_within_an_hour() {
    let d = GhostDiscovery::new("me".to_string(), [7u8; 32]);
    let addr = SocketAddress::V4 { ip: [1, 2, 3, 4], port: 9090 };
    let rec = d.encode_coordinate_at(&addr, 1_000_000, [3u8; 12]);
    assert_eq!(d.decode_coordinate_at(&rec, 1_000_000), Some(addr));
    assert_eq!(d.decode_coordinate_at(&rec, 1_003_600), Some(addr));
    assert_eq!(d.decode_coordinate_at(&rec, 1_003_601), None);
    assert_eq!(d.decode_coordinate_at(&rec, 5), Some(addr));
}

#[test]
fn coordinate_needs_the_storage_key() {
    let d = GhostDiscovery::new("me".to_string(), [7u8; 32]);
    let other = GhostDiscovery::new("me".to_string(), [8u8; 32]);
    let addr = SocketAddress::V6 { ip: [0x20, 1, 0xd, 0xb8, 0, 0, 0, 0, 0, 0, 0, 0, 0, 0, 0, 1], port: 443 };
    let rec = d.encode_coordinate(&addr).unwrap();
    assert_eq!(d.decode_coordinate(&rec), Some(addr));
    assert_eq!(other.decode_coordinate(&rec), None);
    assert_eq!(d.decode_coordinate(&rec[..10]), None);
}

#[test]
fn coordinate_record_matches_bincode_and_aes_gcm() {
    let key = [9u8; 32];
    let d = GhostDiscovery::new("me".to_string(), key);
    let addr = SocketAddress::V4 { ip: [10, 0, 0, 7], port: 4000 };
    let rec = d.encode_coordinate_at(&addr, 77, [1u8; 12]);
    // A socket address travels as its variant index, its octets and its port.
    let plain = bincode::serialize(&(0u32, [10u8, 0, 0, 7], 4000u16, 77u64)).unwrap();
    let cipher = aes_gcm::Aes256Gcm::new(aes_gcm::Key::<aes_gcm::Aes256Gcm>::from_slice(&key));
    let ct = cipher.encrypt(aes_gcm::Nonce::from_slice(&[1u8; 12]), plain.as_ref()).unwrap();
    let expected = bincode::serialize(&(ct, [1u8; 12])).unwrap();
    assert_eq!(rec, expected);
}

#[test]
fn coordinate_blob_layout() {
    let blob = CoordinateBlob { encrypted_data: vec![1, 2, 3], nonce: [4u8; 12] };
    let bytes = blob.to_bytes();
    assert_eq!(&bytes[0..8], &[3, 0, 0, 0, 0, 0, 0, 0]);
    let back = CoordinateBlob::from_bytes(&bytes).unwrap();
    assert_eq!(back.encrypted_data, vec![1, 2, 3]);
    assert_eq!(back.nonce, [4u8; 12]);
    assert!(CoordinateBlob::from_bytes(&bytes[..bytes.len() - 1]).is_none());
}
