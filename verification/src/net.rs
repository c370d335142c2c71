//! The network stack's decisions: who a peer is after the HELLO exchange,
//! what an incoming stream carries, which address a node announces, and the
//! chaff frames that keep its traffic rate constant.

use vstd::prelude::*;
use vstd::string::*;
use vstd::utf8::*;
use crate::dht::{GhostDiscovery, SocketAddress, coordinate_record, stamped};
use crate::gsp::{
    GspFrame, IxnFields, MsgType, decode_hello, decode_hello_spec, fields_digest, fields_signature_ok,
    frame_bytes, head16, hello_accepts, quoted_id, hello_frame, hello_wire, ixn_fields, ixn_fits, lemma_checks_by_fields,
    lemma_hello_roundtrip, parse_frame, verify_hello,
};
use crate::encoding::{hex_chars, lemma_hex_chars_bytes};
use crate::keri::{InceptionEvent, ixn_digest, ixn_made_by, lemma_made_inception_verifies};
use crate::primitives::{thread_random_below, thread_random_bytes};
use crate::text::string_from_utf8;

verus! {

/// The GhostID given to a peer whose identity could not be verified.
pub open spec fn unverified() -> Seq<char> {
    "unverified"@
}

/// The GhostID of the peer that sent the HELLO bytes `b`: the claimed one
/// when the HELLO decodes and verifies, `"unverified"` otherwise.
pub open spec fn peer_id_of(b: Seq<u8>) -> Seq<char> {
    match decode_hello_spec(b) {
        None => unverified(),
        Some((id, f)) => if hello_accepts(id, f) {
            id
        } else {
            unverified()
        },
    }
}

/// `m` is the message that refuses the HELLO claiming `ghost_id` with the
/// inception fields `f`: a bad signature is reported with the verifier's
/// text after its prefix, a GhostID mismatch with the claimed ID as
/// [`quoted_id`] quotes it and the computed one's first 16 bytes.
pub open spec fn hello_rejection(ghost_id: Seq<char>, f: IxnFields, m: Seq<char>) -> bool {
    if !fields_signature_ok(f) {
        ("KERI:BAD_SIGNATURE: CRYPTO:SIGNATURE_INVALID: "@).is_prefix_of(m)
    } else {
        m == "KERI:ID_MISMATCH: claimed "@ + quoted_id(ghost_id) + " but inception hashes to "@
            + head16(hex_chars(fields_digest(f)))
    }
}

/// Who a peer is after the HELLO exchange.
#[derive(Debug)]
pub struct PeerIdentity {
    /// The verified GhostID, or `"unverified"`.
    pub ghost_id: String,
    /// Why a received HELLO was refused, when it was.
    pub rejection: Option<String>,
}

/// The identity of the peer that sent the HELLO bytes `b` (all bytes read
/// from the HELLO stream): the verified GhostID, or `"unverified"` with the
/// reason when a HELLO arrived but was refused.
pub fn peer_identity(b: &[u8]) -> (p: PeerIdentity)
    ensures
        p.ghost_id@ == peer_id_of(b@),
        p.rejection is Some <==> (decode_hello_spec(b@) matches Some((id, f)) && !hello_accepts(id, f)),
        p.rejection matches Some(m) ==> (decode_hello_spec(b@) matches Some((id, f))
            && hello_rejection(id, f, m@)),
{
    match decode_hello(b) {
        None => PeerIdentity { ghost_id: String::from_str("unverified"), rejection: None },
        Some(hello) => {
            proof {
                lemma_checks_by_fields(hello.inception);
            }
            match verify_hello(&hello) {
                Ok(id) => PeerIdentity { ghost_id: id, rejection: None },
                Err(reason) => PeerIdentity { ghost_id: String::from_str("unverified"), rejection: Some(reason) },
            }
        },
    }
}

/// What an incoming application stream carries.
#[derive(Debug)]
pub enum Ingress {
    /// Chaff: dropped silently.
    Chaff,
    /// A `Data` frame whose payload is this text.
    Framed(String),
    /// Bytes shown as they are (no frame, or a frame of another type): this text.
    Plain(String),
    /// Nothing to show (the bytes are not UTF-8).
    Unreadable,
}

/// What to do with the bytes `b` read from an incoming stream.
pub open spec fn ingress_of(b: Seq<u8>) -> (bool, Option<(bool, Seq<char>)>) {
    match parse_frame(b) {
        Some((_, MsgType::Chaff, _)) => (true, None),
        Some((_, MsgType::Data, p)) => (false, if valid_utf8(p) { Some((true, decode_utf8(p))) } else { None }),
        _ => (false, if valid_utf8(b) { Some((false, decode_utf8(b))) } else { None }),
    }
}

/// `i` is what the bytes `b` call for.
pub open spec fn ingress_is(b: Seq<u8>, i: Ingress) -> bool {
    match ingress_of(b) {
        (true, _) => i is Chaff,
        (false, None) => i is Unreadable,
        (false, Some((true, t))) => i matches Ingress::Framed(x) && x@ == t,
        (false, Some((false, t))) => i matches Ingress::Plain(x) && x@ == t,
    }
}

/// Classifies the bytes read from an incoming application stream.
pub fn classify_ingress(b: &[u8]) -> (r: Ingress)
    ensures
        ingress_is(b@, r),
{
    match GspFrame::from_bytes(b) {
        Some(frame) => match frame.msg_type {
            MsgType::Chaff => Ingress::Chaff,
            MsgType::Data => match string_from_utf8(frame.payload) {
                Some(t) => Ingress::Framed(t),
                None => Ingress::Unreadable,
            },
            _ => match string_from_utf8(crate::bytes::to_vec(b)) {
                Some(t) => Ingress::Plain(t),
                None => Ingress::Unreadable,
            },
        },
        None => match string_from_utf8(crate::bytes::to_vec(b)) {
            Some(t) => Ingress::Plain(t),
            None => Ingress::Unreadable,
        },
    }
}

/// The address a node announces for a local address: the loopback
/// `127.0.0.1` with the same port when the local address is unspecified
/// (`0.0.0.0` or `::`), the address itself otherwise.
pub open spec fn announced(a: SocketAddress) -> SocketAddress {
    match a {
        SocketAddress::V4 { ip, port } => if ip@ == seq![0u8, 0, 0, 0] {
            SocketAddress::V4 { ip: [127u8, 0, 0, 1], port }
        } else {
            a
        },
        SocketAddress::V6 { ip, port } => if ip@ == seq![0u8; 16] {
            SocketAddress::V4 { ip: [127u8, 0, 0, 1], port }
        } else {
            a
        },
    }
}

/// The address to announce for the local address `a`.
pub fn announce_address(a: SocketAddress) -> (r: SocketAddress)
    ensures
        r.view() == announced(a).view(),
{
    match a {
        SocketAddress::V4 { ip, port } => {
            if crate::bytes::is_all_zero(&ip) {
                assert(ip@ =~= seq![0u8, 0, 0, 0]);
                SocketAddress::V4 { ip: [127u8, 0, 0, 1], port }
            } else {
                assert(ip@ != seq![0u8, 0, 0, 0]) by {
                    if ip@ == seq![0u8, 0, 0, 0] {
                        assert(crate::bytes::all_zero(ip@));
                    }
                }
                a
            }
        },
        SocketAddress::V6 { ip, port } => {
            if crate::bytes::is_all_zero(&ip) {
                assert(ip@ =~= seq![0u8; 16]);
                SocketAddress::V4 { ip: [127u8, 0, 0, 1], port }
            } else {
                assert(ip@ != seq![0u8; 16]) by {
                    if ip@ == seq![0u8; 16] {
                        assert(crate::bytes::all_zero(ip@));
                    }
                }
                a
            }
        },
    }
}

/// Whether a lookup for `key` asks for the node's own GhostID.
pub fn is_own_id(key: &[u8], local_id: &str) -> (r: bool)
    ensures
        r == (key@ == local_id.spec_bytes()),
{
    crate::bytes::bytes_equal(key, local_id.as_bytes())
}

/// The next chaff frame: a wait in milliseconds before sending it, in
/// `[50, 150)`, and a `Chaff` frame around 64 to 511 random bytes.
pub fn next_chaff() -> (r: (u64, Vec<u8>))
    ensures
        50 <= r.0 < 150,
        exists|payload: Seq<u8>|
            64 <= payload.len() < 512 && r.1@ == #[trigger] frame_bytes(payload.len() as u32, MsgType::Chaff, payload),
{
    let jitter = thread_random_below(50, 150);
    let size = thread_random_below(64, 512);
    let payload = thread_random_bytes(size as usize);
    let ghost p = payload@;
    let frame = GspFrame::new(MsgType::Chaff, payload);
    let bytes = frame.to_bytes();
    assert(p.len() % 0x1_0000_0000 == p.len());
    assert(bytes@ == frame_bytes(p.len() as u32, MsgType::Chaff, p));
    (jitter, bytes)
}

/// Sent into the discovery loop to store a fresh record for a GhostID.
#[derive(Debug)]
pub struct ReannounceRequest {
    /// The GhostID to announce.
    pub ghost_id: String,
    /// The encoded coordinate record.
    pub value: Vec<u8>,
}

/// The re-announcement of `ghost_id` at the local address `local`: a record
/// of the address to announce, stamped now under a fresh nonce (`None` when
/// the system clock reads before the Unix epoch).
pub fn reannouncement(discovery: &GhostDiscovery, ghost_id: String, local: SocketAddress) -> (r: Option<ReannounceRequest>)
    ensures
        r matches Some(q) ==> q.ghost_id@ == ghost_id@ && exists|t: u64, nonce: Seq<u8>|
            nonce.len() == 12 && #[trigger] coordinate_record(discovery.storage_key@, announced(local).view(), t, nonce)
                == Some(q.value@) && stamped(discovery.storage_key@, q.value@, announced(local).view(), t),
{
    let addr = announce_address(local);
    match discovery.encode_coordinate(&addr) {
        Some(value) => Some(ReannounceRequest { ghost_id, value }),
        None => None,
    }
}

/// A node's own HELLO — its GhostID and the inception event that
/// `InceptionEvent::new` made for it, with a sound signature — is decoded and
/// verified by the peer that receives it, which then knows the node by that
/// GhostID.
pub proof fn lemma_own_hello_accepted(e: InceptionEvent, secret: Seq<u8>, commitment: Seq<u8>)
    requires
        ixn_made_by(e, secret, commitment),
        crate::keri::signature_sound(secret, crate::keri::ixn_signed_bytes(e)),
        ixn_fits(ixn_fields(e)),
        hello_wire(hex_chars(ixn_digest(e)), ixn_fields(e)).len() < 0x1_0000_0000,
    ensures
        peer_id_of(hello_frame(hex_chars(ixn_digest(e)), ixn_fields(e))) == hex_chars(ixn_digest(e)),
{
    let id = hex_chars(ixn_digest(e));
    let f = ixn_fields(e);
    lemma_hex_chars_bytes(ixn_digest(e));
    lemma_hello_roundtrip(id, f);
    lemma_made_inception_verifies(e, secret, commitment);
    lemma_checks_by_fields(e);
    assert(hello_accepts(id, f));
}

} // verus!
