//! Ghost Service Protocol framing and the HELLO handshake payload.
//!
//! Wire layout of a frame (integers big-endian):
//! ```text
//! ┌──────────────┬──────────┬─────────────────┐
//! │  length: u32 │  type:u8 │  payload: [u8]  │
//! └──────────────┴──────────┴─────────────────┘
//! ```
//! `length` is the payload's byte length and the type byte is the type's
//! protocol code. A HELLO payload is the bincode encoding of the HELLO.
//! Both sides send a `GspHello` inside a `Control` frame right after the QUIC
//! connection is up, and each verifies the other's before exchanging `Data`.

use vstd::prelude::*;
use vstd::string::*;
use vstd::utf8::*;
use vstd::seq_lib::lemma_concat_associative;
use crate::bytes::{append_bytes, be_bytes, be_value, lemma_be_roundtrip, pow256};
use crate::encoding::{hex_bytes, hex_chars, hex_encode, lemma_hex_chars_bytes};
use crate::keri::{InceptionEvent, ixn_digest, ixn_json_of, ixn_signature_check, parse_key_spec, parse_sig_spec};
use crate::primitives::{blake3_digest, ed25519_verifies};
use crate::text::{str_eq, views};
use crate::wire::{
    bin_str, bin_str_list, bin_u64, lemma_str_list_roundtrip, lemma_str_roundtrip,
    lemma_u64_roundtrip, push_str, push_str_list, push_u64, read_str, read_str_list, read_u64,
    read_u8, take_str, take_str_list, take_u64, take_u8,
};

verus! {

/// GSP message types.
#[derive(Debug, Clone, Copy, PartialEq, Eq, Structural)]
pub enum MsgType {
    /// Management frames (HELLO handshake, key-event sync, keepalives).
    Control,
    /// Encapsulated Ghost-to-Ghost application traffic.
    Data,
    /// Ghost migration events.
    Migration,
    /// Traffic morphing padding — silently discarded by receivers.
    Chaff,
}

impl MsgType {
    /// The protocol's one-byte code of the type, which the wire carries.
    pub open spec fn wire_code(self) -> u8 {
        match self {
            MsgType::Control => 0x01u8,
            MsgType::Data => 0x02u8,
            MsgType::Migration => 0x03u8,
            MsgType::Chaff => 0xFFu8,
        }
    }

    /// The protocol's one-byte code of the type: 0x01, 0x02, 0x03, 0xFF.
    pub fn code(&self) -> (r: u8)
        ensures
            r == self.wire_code(),
    {
        match self {
            MsgType::Control => 0x01,
            MsgType::Data => 0x02,
            MsgType::Migration => 0x03,
            MsgType::Chaff => 0xFF,
        }
    }
}

/// The type whose protocol code is `c`, if any.
pub open spec fn msg_type_of_code(c: u8) -> Option<MsgType> {
    if c == 0x01 {
        Some(MsgType::Control)
    } else if c == 0x02 {
        Some(MsgType::Data)
    } else if c == 0x03 {
        Some(MsgType::Migration)
    } else if c == 0xFF {
        Some(MsgType::Chaff)
    } else {
        None
    }
}

/// A length-prefixed GSP frame for transport over a QUIC stream.
#[derive(Debug)]
pub struct GspFrame {
    /// Byte length of `payload`.
    pub length: u32,
    /// Frame classification.
    pub msg_type: MsgType,
    /// Raw payload bytes.
    pub payload: Vec<u8>,
}

/// The wire bytes of a frame with the given fields: the big-endian length,
/// the type's code, the payload.
pub open spec fn frame_bytes(length: u32, msg_type: MsgType, payload: Seq<u8>) -> Seq<u8> {
    be_bytes(length as nat, 4) + seq![msg_type.wire_code()] + payload
}

/// What decoding `b` as a frame gives: `(length, type, payload)` with the
/// `length` bytes that follow the header as payload, or `None` when the bytes
/// run out or the type code is unknown. Bytes after the payload are ignored.
pub open spec fn parse_frame(b: Seq<u8>) -> Option<(u32, MsgType, Seq<u8>)> {
    if b.len() < 5 {
        None
    } else {
        match msg_type_of_code(b[4]) {
            None => None,
            Some(t) => {
                let n = be_value(b.subrange(0, 4));
                if b.len() < 5 + n {
                    None
                } else {
                    Some((n as u32, t, b.subrange(5, 5 + n as int)))
                }
            },
        }
    }
}

impl GspFrame {
    /// Wraps a payload in a frame; `length` is the payload length taken
    /// modulo 2^32, as the `u32` conversion truncates.
    pub fn new(msg_type: MsgType, payload: Vec<u8>) -> (f: Self)
        ensures
            f.length as nat == payload@.len() % 0x1_0000_0000,
            f.msg_type == msg_type,
            f.payload@ == payload@,
    {
        let l: u64 = payload.len() as u64;
        GspFrame { length: (l % 0x1_0000_0000) as u32, msg_type, payload }
    }

    /// The frame's wire bytes.
    pub fn to_bytes(&self) -> (r: Vec<u8>)
        ensures
            r@ == frame_bytes(self.length, self.msg_type, self.payload@),
    {
        let mut out: Vec<u8> = Vec::new();
        append_bytes(&mut out, &crate::bytes::u32_be(self.length));
        out.push(self.msg_type.code());
        append_bytes(&mut out, self.payload.as_slice());
        assert(out@ =~= frame_bytes(self.length, self.msg_type, self.payload@));
        out
    }

    /// Decodes a frame from received bytes; `None` when they do not hold one.
    pub fn from_bytes(bytes: &[u8]) -> (r: Option<Self>)
        ensures
            match parse_frame(bytes@) {
                None => r is None,
                Some(t) => r matches Some(f) && f.length == t.0 && f.msg_type == t.1 && f.payload@ == t.2,
            },
    {
        if bytes.len() < 5 {
            return None;
        }
        let length = crate::bytes::u32_from_be(&bytes[0..4]);
        let c = bytes[4];
        let msg_type = if c == 0x01 {
            MsgType::Control
        } else if c == 0x02 {
            MsgType::Data
        } else if c == 0x03 {
            MsgType::Migration
        } else if c == 0xFF {
            MsgType::Chaff
        } else {
            return None;
        };
        if ((bytes.len() - 5) as u64) < length as u64 {
            return None;
        }
        let end = 5 + length as usize;
        let payload = crate::bytes::to_vec(&bytes[5..end]);
        Some(GspFrame { length, msg_type, payload })
    }
}

/// Decoding the wire bytes of any frame whose length field is its payload's
/// length (with anything after them) gives the frame back.
pub proof fn lemma_frame_roundtrip(length: u32, msg_type: MsgType, payload: Seq<u8>, rest: Seq<u8>)
    requires
        payload.len() == length,
    ensures
        parse_frame(frame_bytes(length, msg_type, payload) + rest) == Some((length, msg_type, payload)),
{
    let b = frame_bytes(length, msg_type, payload) + rest;
    assert(pow256(4) == 0x1_0000_0000) by {
        reveal_with_fuel(pow256, 5);
    }
    lemma_be_roundtrip(length as nat, 4);
    assert(b.subrange(0, 4) =~= be_bytes(length as nat, 4));
    assert(b[4] == msg_type.wire_code());
    assert(b.subrange(5, 5 + payload.len() as int) =~= payload);
}


// ── HELLO ─────────────────────────────────────────────────────────────────

/// HELLO payload, sent by both sides when a connection is established.
///
/// The receiver checks that the inception event's self-signature verifies
/// and that the BLAKE3 digest of the event is `ghost_id`.
#[derive(Debug)]
pub struct GspHello {
    /// The sender's GhostID (hex BLAKE3 of its inception event).
    pub ghost_id: String,
    /// The sender's inception event.
    pub inception: InceptionEvent,
}

/// The answer to a handshake attempt.
#[derive(Debug)]
pub enum HandshakeResult {
    /// Identity verified.
    Success,
    /// Verification failed (GhostID mismatch or invalid signature).
    Failed(String),
}

/// The field values of an inception event, as the wire carries them.
pub struct IxnFields {
    pub v: Seq<char>,
    pub t: Seq<char>,
    pub d: Seq<char>,
    pub i: Seq<char>,
    pub s: u64,
    pub kt: u8,
    pub k: Seq<Seq<char>>,
    pub n: Seq<char>,
    pub di: Seq<char>,
    pub sig: Seq<char>,
}

/// The field values of `e`.
pub open spec fn ixn_fields(e: InceptionEvent) -> IxnFields {
    IxnFields {
        v: e.v@,
        t: e.t@,
        d: e.d@,
        i: e.i@,
        s: e.s,
        kt: e.kt,
        k: views(e.k@),
        n: e.n@,
        di: e.di@,
        sig: e.sig@,
    }
}

/// The wire bytes of an inception event: its fields in declaration order.
#[verifier::opaque]
pub open spec fn ixn_wire(f: IxnFields) -> Seq<u8> {
    bin_str(f.v) + bin_str(f.t) + bin_str(f.d) + bin_str(f.i) + bin_u64(f.s as nat) + seq![f.kt]
        + bin_str_list(f.k) + bin_str(f.n) + bin_str(f.di) + bin_str(f.sig)
}

/// The wire bytes of a HELLO payload: the GhostID, then the inception event.
pub open spec fn hello_wire(ghost_id: Seq<char>, f: IxnFields) -> Seq<u8> {
    bin_str(ghost_id) + ixn_wire(f)
}

/// Reads an inception event off the front of `b`.
#[verifier::opaque]
pub open spec fn take_ixn(b: Seq<u8>) -> Option<(IxnFields, Seq<u8>)> {
    match take_str(b) {
        None => None,
        Some((v, b1)) => match take_str(b1) {
            None => None,
            Some((t, b2)) => match take_str(b2) {
                None => None,
                Some((d, b3)) => match take_str(b3) {
                    None => None,
                    Some((i, b4)) => match take_u64(b4) {
                        None => None,
                        Some((s, b5)) => match take_u8(b5) {
                            None => None,
                            Some((kt, b6)) => match take_str_list(b6) {
                                None => None,
                                Some((k, b7)) => match take_str(b7) {
                                    None => None,
                                    Some((n, b8)) => match take_str(b8) {
                                        None => None,
                                        Some((di, b9)) => match take_str(b9) {
                                            None => None,
                                            Some((sig, b10)) => Some(
                                                (
                                                    IxnFields {
                                                        v,
                                                        t,
                                                        d,
                                                        i,
                                                        s: s as u64,
                                                        kt,
                                                        k,
                                                        n,
                                                        di,
                                                        sig,
                                                    },
                                                    b10,
                                                ),
                                            ),
                                        },
                                    },
                                },
                            },
                        },
                    },
                },
            },
        },
    }
}

/// What decoding a HELLO payload gives: the GhostID and the inception
/// event's fields; bytes after them are ignored.
pub open spec fn parse_hello(b: Seq<u8>) -> Option<(Seq<char>, IxnFields)> {
    match take_str(b) {
        None => None,
        Some((id, r)) => match take_ixn(r) {
            None => None,
            Some((f, _)) => Some((id, f)),
        },
    }
}

/// Every string of the fields has fewer than 2^64 UTF-8 bytes, and the
/// key list fewer than 2^64 entries.
pub open spec fn ixn_fits(f: IxnFields) -> bool {
    &&& encode_utf8(f.v).len() < 0x1_0000_0000_0000_0000
    &&& encode_utf8(f.t).len() < 0x1_0000_0000_0000_0000
    &&& encode_utf8(f.d).len() < 0x1_0000_0000_0000_0000
    &&& encode_utf8(f.i).len() < 0x1_0000_0000_0000_0000
    &&& f.k.len() < 0x1_0000_0000_0000_0000
    &&& forall|j: int| 0 <= j < f.k.len() ==> encode_utf8(#[trigger] f.k[j]).len() < 0x1_0000_0000_0000_0000
    &&& encode_utf8(f.n).len() < 0x1_0000_0000_0000_0000
    &&& encode_utf8(f.di).len() < 0x1_0000_0000_0000_0000
    &&& encode_utf8(f.sig).len() < 0x1_0000_0000_0000_0000
}

/// The wire bytes of an inception event followed by `rest`, field by field.
pub open spec fn ixn_wire_then(f: IxnFields, rest: Seq<u8>) -> Seq<u8> {
    bin_str(f.v) + (bin_str(f.t) + (bin_str(f.d) + (bin_str(f.i) + (bin_u64(f.s as nat) + (seq![f.kt] + (
    bin_str_list(f.k) + (bin_str(f.n) + (bin_str(f.di) + (bin_str(f.sig) + rest)))))))))
}

proof fn lemma_ixn_wire_then(f: IxnFields, rest: Seq<u8>)
    ensures
        ixn_wire(f) + rest == ixn_wire_then(f, rest),
{
    reveal(ixn_wire);
    let a = bin_str(f.v);
    let b = bin_str(f.t);
    let c = bin_str(f.d);
    let d = bin_str(f.i);
    let e = bin_u64(f.s as nat);
    let g = seq![f.kt];
    let h = bin_str_list(f.k);
    let i = bin_str(f.n);
    let j = bin_str(f.di);
    let k = bin_str(f.sig);
    let p1 = a + b;
    let p2 = p1 + c;
    let p3 = p2 + d;
    let p4 = p3 + e;
    let p5 = p4 + g;
    let p6 = p5 + h;
    let p7 = p6 + i;
    let p8 = p7 + j;
    lemma_concat_associative(p8, k, rest);
    lemma_concat_associative(p7, j, k + rest);
    lemma_concat_associative(p6, i, j + (k + rest));
    lemma_concat_associative(p5, h, i + (j + (k + rest)));
    lemma_concat_associative(p4, g, h + (i + (j + (k + rest))));
    lemma_concat_associative(p3, e, g + (h + (i + (j + (k + rest)))));
    lemma_concat_associative(p2, d, e + (g + (h + (i + (j + (k + rest))))));
    lemma_concat_associative(p1, c, d + (e + (g + (h + (i + (j + (k + rest)))))));
    lemma_concat_associative(a, b, c + (d + (e + (g + (h + (i + (j + (k + rest))))))));
}

/// Reading the wire bytes of an inception event gives its fields back.
#[verifier::rlimit(40)]
pub proof fn lemma_ixn_roundtrip(f: IxnFields, rest: Seq<u8>)
    requires
        ixn_fits(f),
    ensures
        take_ixn(ixn_wire(f) + rest) == Some((f, rest)),
{
    lemma_ixn_wire_then(f, rest);
    let r9 = bin_str(f.sig) + rest;
    let r8 = bin_str(f.di) + r9;
    let r7 = bin_str(f.n) + r8;
    let r6 = bin_str_list(f.k) + r7;
    let r5 = seq![f.kt] + r6;
    let r4 = bin_u64(f.s as nat) + r5;
    let r3 = bin_str(f.i) + r4;
    let r2 = bin_str(f.d) + r3;
    let r1 = bin_str(f.t) + r2;
    let r0 = bin_str(f.v) + r1;
    assert(r0 == ixn_wire_then(f, rest));
    lemma_str_roundtrip(f.v, r1);
    lemma_str_roundtrip(f.t, r2);
    lemma_str_roundtrip(f.d, r3);
    lemma_str_roundtrip(f.i, r4);
    lemma_u64_roundtrip(f.s as nat, r5);
    assert(r5.skip(1) =~= r6);
    assert(take_u8(r5) == Some((f.kt, r6)));
    lemma_str_list_roundtrip(f.k, r7);
    lemma_str_roundtrip(f.n, r8);
    lemma_str_roundtrip(f.di, r9);
    lemma_str_roundtrip(f.sig, rest);
    assert(take_ixn(r0) == Some((f, rest))) by {
        reveal(take_ixn);
    }
}

fn push_inception(out: &mut Vec<u8>, e: &InceptionEvent)
    ensures
        final(out)@ == old(out)@ + ixn_wire(ixn_fields(*e)),
{
    reveal(ixn_wire);
    push_str(out, e.v.as_str());
    push_str(out, e.t.as_str());
    push_str(out, e.d.as_str());
    push_str(out, e.i.as_str());
    push_u64(out, e.s);
    out.push(e.kt);
    push_str_list(out, e.k.as_slice());
    push_str(out, e.n.as_str());
    push_str(out, e.di.as_str());
    push_str(out, e.sig.as_str());
    assert(final(out)@ =~= old(out)@ + ixn_wire(ixn_fields(*e)));
}

fn read_inception(b: &[u8], pos: usize) -> (r: Option<(InceptionEvent, usize)>)
    requires
        pos <= b@.len(),
    ensures
        match take_ixn(b@.skip(pos as int)) {
            None => r is None,
            Some((f, rest)) => r matches Some((e, p)) && ixn_fields(e) == f && pos <= p <= b@.len()
                && b@.skip(p as int) == rest,
        },
{
    reveal(take_ixn);
    let (v, p) = match read_str(b, pos) {
        None => return None,
        Some(x) => x,
    };
    let (t, p) = match read_str(b, p) {
        None => return None,
        Some(x) => x,
    };
    let (d, p) = match read_str(b, p) {
        None => return None,
        Some(x) => x,
    };
    let (i, p) = match read_str(b, p) {
        None => return None,
        Some(x) => x,
    };
    let (s, p) = match read_u64(b, p) {
        None => return None,
        Some(x) => x,
    };
    let (kt, p) = match read_u8(b, p) {
        None => return None,
        Some(x) => x,
    };
    let (k, p) = match read_str_list(b, p) {
        None => return None,
        Some(x) => x,
    };
    let (n, p) = match read_str(b, p) {
        None => return None,
        Some(x) => x,
    };
    let (di, p) = match read_str(b, p) {
        None => return None,
        Some(x) => x,
    };
    let (sig, p) = match read_str(b, p) {
        None => return None,
        Some(x) => x,
    };
    let e = InceptionEvent { v, t, d, i, s, kt, k, n, di, sig };
    Some((e, p))
}

/// The wire bytes of a HELLO payload for `hello`.
pub fn hello_bytes(hello: &GspHello) -> (r: Vec<u8>)
    ensures
        r@ == hello_wire(hello.ghost_id@, ixn_fields(hello.inception)),
{
    let mut out: Vec<u8> = Vec::new();
    push_str(&mut out, hello.ghost_id.as_str());
    push_inception(&mut out, &hello.inception);
    assert(out@ =~= hello_wire(hello.ghost_id@, ixn_fields(hello.inception)));
    out
}

/// The frame bytes that carry a HELLO: a `Control` frame around its payload.
pub open spec fn hello_frame(ghost_id: Seq<char>, f: IxnFields) -> Seq<u8> {
    let p = hello_wire(ghost_id, f);
    frame_bytes((p.len() % 0x1_0000_0000) as u32, MsgType::Control, p)
}

/// Encodes a HELLO into a `Control` frame, ready to send.
pub fn encode_hello(hello: &GspHello) -> (r: Vec<u8>)
    ensures
        r@ == hello_frame(hello.ghost_id@, ixn_fields(hello.inception)),
{
    let payload = hello_bytes(hello);
    GspFrame::new(MsgType::Control, payload).to_bytes()
}

/// What decoding HELLO frame bytes gives: `None` when they are not a frame,
/// not a `Control` frame, or its payload is not a HELLO.
pub open spec fn decode_hello_spec(b: Seq<u8>) -> Option<(Seq<char>, IxnFields)> {
    match parse_frame(b) {
        None => None,
        Some((_, t, p)) => if t != MsgType::Control {
            None
        } else {
            parse_hello(p)
        },
    }
}

/// Decodes a HELLO from the bytes of a `Control` frame.
pub fn decode_hello(frame: &[u8]) -> (r: Option<GspHello>)
    ensures
        match decode_hello_spec(frame@) {
            None => r is None,
            Some((id, f)) => r matches Some(h) && h.ghost_id@ == id && ixn_fields(h.inception) == f,
        },
{
    let fr = match GspFrame::from_bytes(frame) {
        None => return None,
        Some(f) => f,
    };
    if fr.msg_type != MsgType::Control {
        return None;
    }
    let b = fr.payload.as_slice();
    assert(b@.skip(0) =~= b@);
    let (ghost_id, p) = match read_str(b, 0) {
        None => return None,
        Some(x) => x,
    };
    match read_inception(b, p) {
        None => None,
        Some((inception, _)) => Some(GspHello { ghost_id, inception }),
    }
}

/// Decoding an encoded HELLO gives back its GhostID and inception event.
#[verifier::rlimit(50)]
pub proof fn lemma_hello_roundtrip(ghost_id: Seq<char>, f: IxnFields)
    requires
        encode_utf8(ghost_id).len() < 0x1_0000_0000_0000_0000,
        ixn_fits(f),
        hello_wire(ghost_id, f).len() < 0x1_0000_0000,
    ensures
        decode_hello_spec(hello_frame(ghost_id, f)) == Some((ghost_id, f)),
{
    let p = hello_wire(ghost_id, f);
    let fr = hello_frame(ghost_id, f);
    lemma_frame_roundtrip((p.len() % 0x1_0000_0000) as u32, MsgType::Control, p, seq![]);
    assert(fr + Seq::<u8>::empty() =~= fr);
    assert(parse_frame(fr) == Some(((p.len() % 0x1_0000_0000) as u32, MsgType::Control, p)));
    lemma_str_roundtrip(ghost_id, ixn_wire(f));
    assert(take_str(p) == Some((ghost_id, ixn_wire(f))));
    lemma_ixn_roundtrip(f, seq![]);
    assert(ixn_wire(f) + Seq::<u8>::empty() =~= ixn_wire(f));
    assert(take_ixn(ixn_wire(f)) == Some((f, Seq::<u8>::empty())));
    assert(parse_hello(p) == Some((ghost_id, f)));
}

/// The characters of the first 16 UTF-8 bytes of `s`.
pub open spec fn head16(s: Seq<char>) -> Seq<char> {
    decode_utf8(encode_utf8(s).subrange(0, 16))
}

/// Byte 16 of `s`'s UTF-8 encoding exists and starts a character.
pub open spec fn splits_at_16(s: Seq<char>) -> bool {
    encode_utf8(s).len() >= 16 && is_char_boundary(encode_utf8(s), 16)
}

/// How a mismatch message quotes a GhostID: its first 16 bytes where byte 16
/// starts a character, the whole GhostID otherwise.
pub open spec fn quoted_id(s: Seq<char>) -> Seq<char> {
    if splits_at_16(s) {
        head16(s)
    } else {
        s
    }
}

/// The GhostID that an inception event hashes to.
pub open spec fn computed_id(e: InceptionEvent) -> Seq<char> {
    hex_chars(ixn_digest(e))
}

/// Checks a received HELLO: the inception event's self-signature must verify
/// (an event without a key fails this check) and its digest must be the
/// claimed GhostID. `Ok` holds the GhostID. Any HELLO is accepted as input.
pub fn verify_hello(hello: &GspHello) -> (r: Result<String, String>)
    ensures
        r is Ok <==> (ixn_signature_check(hello.inception) is Ok && computed_id(hello.inception)
            == hello.ghost_id@),
        r matches Ok(id) ==> id@ == hello.ghost_id@,
        ixn_signature_check(hello.inception) is Err ==> (r matches Err(m)
            && ("KERI:BAD_SIGNATURE: CRYPTO:SIGNATURE_INVALID: "@).is_prefix_of(m@)),
        ixn_signature_check(hello.inception) is Ok && computed_id(hello.inception) != hello.ghost_id@
            ==> (r matches Err(m) && m@ == "KERI:ID_MISMATCH: claimed "@ + quoted_id(hello.ghost_id@)
            + " but inception hashes to "@ + head16(computed_id(hello.inception))),
{
    broadcast use vstd::utf8::group_utf8_lib;

    if hello.inception.k.len() == 0 {
        let m = String::from_str("KERI:BAD_SIGNATURE: CRYPTO:SIGNATURE_INVALID: Inception event carries no key");
        proof {
            reveal_strlit("KERI:BAD_SIGNATURE: CRYPTO:SIGNATURE_INVALID: Inception event carries no key");
            reveal_strlit("KERI:BAD_SIGNATURE: CRYPTO:SIGNATURE_INVALID: ");
            assert(views(hello.inception.k@).len() == 0);
        }
        return Err(m);
    }

    match hello.inception.verify_signature() {
        Ok(()) => {},
        Err(e) => {
            let mut m = String::from_str("KERI:BAD_SIGNATURE: ");
            let em = e.message();
            m.append(em.as_str());
            proof {
                reveal_strlit("KERI:BAD_SIGNATURE: ");
                reveal_strlit("CRYPTO:SIGNATURE_INVALID: ");
                reveal_strlit("KERI:BAD_SIGNATURE: CRYPTO:SIGNATURE_INVALID: ");
                assert(e.prefix() == "CRYPTO:SIGNATURE_INVALID: "@);
                assert("KERI:BAD_SIGNATURE: CRYPTO:SIGNATURE_INVALID: "@ =~= "KERI:BAD_SIGNATURE: "@
                    + "CRYPTO:SIGNATURE_INVALID: "@);
                assert(m@ =~= "KERI:BAD_SIGNATURE: "@ + "CRYPTO:SIGNATURE_INVALID: "@ + e.detail());
            }
            return Err(m);
        },
    }
    let digest = match hello.inception.calculate_digest() {
        Ok(d) => d,
        Err(e) => {
            let mut m = String::from_str("KERI:DIGEST_ERROR: ");
            let em = e.message();
            m.append(em.as_str());
            return Err(m);
        },
    };
    let computed = hex_encode(&digest);
    if !str_eq(computed.as_str(), hello.ghost_id.as_str()) {
        let ghost cb = hex_bytes(digest@);
        proof {
            lemma_hex_chars_bytes(digest@);
            assert(cb.len() == 64);
            assert(valid_utf8(cb)) by {
                assert(valid_utf8(encode_utf8(hex_chars(digest@))));
            }
            assert(is_char_boundary(cb, 16)) by {
                assert(cb[16] < 128);
                assert(is_leading_byte_width_1(cb[16]));
            }
        }
        let (computed16, _) = computed.as_str().split_at(16);
        let mut m = String::from_str("KERI:ID_MISMATCH: claimed ");
        let id = hello.ghost_id.as_str();
        if id.as_bytes().len() >= 16 && id.is_char_boundary(16) {
            let (claimed16, _) = id.split_at(16);
            proof {
                assert(claimed16@ == decode_utf8(claimed16.spec_bytes()));
            }
            m.append(claimed16);
        } else {
            m.append(id);
        }
        m.append(" but inception hashes to ");
        m.append(computed16);
        proof {
            assert(computed16@ == decode_utf8(computed16.spec_bytes()));
        }
        return Err(m);
    }
    Ok(hello.ghost_id.clone())
}

/// The digest of an inception event with the field values `f`.
pub open spec fn fields_digest(f: IxnFields) -> Seq<u8> {
    blake3_digest(ixn_json_of(f.v, f.t, seq![], seq![], f.s, f.kt, f.k, f.n, f.di, seq![]))
}

/// The self-signature of an inception event with the field values `f` verifies.
pub open spec fn fields_signature_ok(f: IxnFields) -> bool {
    match parse_key_spec(f.k) {
        None => false,
        Some(pk) => match parse_sig_spec(f.sig) {
            None => false,
            Some(sig) => ed25519_verifies(
                pk,
                ixn_json_of(f.v, f.t, f.d, f.i, f.s, f.kt, f.k, f.n, f.di, seq![]),
                sig,
            ),
        },
    }
}

/// A HELLO claiming `ghost_id` with an inception event of field values `f`
/// is accepted: the signature verifies and the event hashes to the GhostID.
pub open spec fn hello_accepts(ghost_id: Seq<char>, f: IxnFields) -> bool {
    fields_signature_ok(f) && hex_chars(fields_digest(f)) == ghost_id
}

/// The checks of an inception event depend on its field values alone.
pub proof fn lemma_checks_by_fields(e: InceptionEvent)
    ensures
        ixn_signature_check(e) is Ok <==> fields_signature_ok(ixn_fields(e)),
        ixn_digest(e) == fields_digest(ixn_fields(e)),
        computed_id(e) == hex_chars(fields_digest(ixn_fields(e))),
{
}

} // verus!
