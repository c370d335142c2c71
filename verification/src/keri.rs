//! KERI-lite key events and the verification of an identifier event log.
//!
//! ```text
//! IXN (s=0) ──K1──► ROT (s=1) ──K1+K2──► ROT (s=2) ──K2+K3──► …
//! ```
//! The GhostID is the hex BLAKE3 digest of the inception event and never
//! changes through any number of rotations. Digests and signatures are taken
//! over the event's canonical JSON text (RFC 8785: no whitespace, object keys
//! in lexicographic order) with the self-referential fields blank.

use vstd::prelude::*;
use vstd::string::*;
use vstd::utf8::*;
use crate::bytes::{all_zero, bytes_equal, is_all_zero, to_array32, to_array64};
use crate::encoding::{
    b64_bytes, b64url_decode_spec, base64url, base64url_decode, hex_chars, hex_decode,
    hex_decode_spec, hex_encode, lemma_base64url_roundtrip, lemma_hex_roundtrip,
};
use crate::error::{CryptoError, CryptoErrorKind};
use crate::json::{
    decimal, decimal_string, json_member, json_str, json_str_array, json_string,
    push_decimal, push_empty_json_str, push_json_str, push_json_str_array, push_member,
};
use crate::keys::{SigningKey, VerifyingKey};
use crate::primitives::{
    blake3_digest, blake3_hash, ed25519_point_check, ed25519_point_valid, ed25519_public,
    ed25519_signature, ed25519_verifies, ed25519_verify_strict,
};
use crate::text::{ascii_chars, views};

verus! {

broadcast use vstd::utf8::group_utf8_lib;

// ── Events ────────────────────────────────────────────────────────────────

/// The genesis event. Self-referential: GhostID = BLAKE3(this event).
#[derive(Debug, Clone)]
pub struct InceptionEvent {
    /// Protocol version string. Always `"TSC2.0"`.
    pub v: String,
    /// Event type tag. Always `"ixn"`.
    pub t: String,
    /// Self-referential BLAKE3 digest (hex). Computed with `d=""`/`i=""`/`sig=""`.
    pub d: String,
    /// GhostID — identical to `d`.
    pub i: String,
    /// Sequence number. Always `0`.
    pub s: u64,
    /// Key threshold. Always `1`.
    pub kt: u8,
    /// Active public key(s), base64url-encoded without padding.
    pub k: Vec<String>,
    /// Pre-rotation commitment: hex(`BLAKE3(K2.public)`).
    pub n: String,
    /// SLIP-0010 derivation path used for the active key.
    pub di: String,
    /// Ed25519 signature by K1 (hex). Computed with `sig=""`.
    pub sig: String,
}

/// A key rotation event, signed by both the outgoing and the incoming key.
#[derive(Debug, Clone)]
pub struct RotationEvent {
    /// Protocol version. Always `"TSC2.0"`.
    pub v: String,
    /// Event type tag. Always `"rot"`.
    pub t: String,
    /// BLAKE3 digest of this event (hex). Computed with `d=""`/`sig_prev=""`/`sig_new=""`.
    pub d: String,
    /// GhostID — unchanged through all rotations.
    pub i: String,
    /// Sequence number: always `prev.s + 1`.
    pub s: u64,
    /// Hex-encoded BLAKE3 digest of the previous event.
    pub p: String,
    /// New active public key, base64url-encoded.
    pub k: Vec<String>,
    /// Pre-rotation commitment for the next-next key.
    pub n: String,
    /// SLIP-0010 derivation path of the new active key.
    pub di: String,
    /// Signature by the outgoing (old) active key (hex).
    pub sig_prev: String,
    /// Signature by the incoming (new) active key (hex).
    pub sig_new: String,
}

/// A single entry in the identifier event log.
#[derive(Debug, Clone)]
pub enum KeyEvent {
    /// Genesis event (sequence 0).
    Inception(InceptionEvent),
    /// Key rotation (sequence ≥ 1).
    Rotation(RotationEvent),
}

// ── Canonical JSON ────────────────────────────────────────────────────────

/// The canonical JSON text of an inception event with the given field values:
/// its members in the key order `d`, `di`, `i`, `k`, `kt`, `n`, `s`, `sig`, `t`, `v`.
#[verifier::opaque]
pub open spec fn ixn_json_of(
    v: Seq<char>,
    t: Seq<char>,
    d: Seq<char>,
    i: Seq<char>,
    s: u64,
    kt: u8,
    k: Seq<Seq<char>>,
    n: Seq<char>,
    di: Seq<char>,
    sig: Seq<char>,
) -> Seq<u8> {
    json_member(seq![100u8], true) + json_str(d)
        + json_member(seq![100u8, 105], false) + json_str(di)
        + json_member(seq![105u8], false) + json_str(i)
        + json_member(seq![107u8], false) + json_str_array(k)
        + json_member(seq![107u8, 116], false) + decimal(kt as nat)
        + json_member(seq![110u8], false) + json_str(n)
        + json_member(seq![115u8], false) + decimal(s as nat)
        + json_member(seq![115u8, 105, 103], false) + json_str(sig)
        + json_member(seq![116u8], false) + json_str(t)
        + json_member(seq![118u8], false) + json_str(v)
        + seq![125u8]
}

/// The bytes an inception event's signature covers: its JSON with `sig` blank.
pub open spec fn ixn_signed_bytes(e: InceptionEvent) -> Seq<u8> {
    ixn_json_of(e.v@, e.t@, e.d@, e.i@, e.s, e.kt, views(e.k@), e.n@, e.di@, seq![])
}

/// The bytes an inception event's digest covers: its JSON with `d`, `i`, `sig` blank.
pub open spec fn ixn_digest_input(e: InceptionEvent) -> Seq<u8> {
    ixn_json_of(e.v@, e.t@, seq![], seq![], e.s, e.kt, views(e.k@), e.n@, e.di@, seq![])
}

/// The BLAKE3 digest of an inception event.
pub open spec fn ixn_digest(e: InceptionEvent) -> Seq<u8> {
    blake3_digest(ixn_digest_input(e))
}

/// The canonical JSON text of a rotation event with the given field values:
/// its members in the key order `d`, `di`, `i`, `k`, `n`, `p`, `s`,
/// `sig_new`, `sig_prev`, `t`, `v`.
#[verifier::opaque]
pub open spec fn rot_json_of(
    v: Seq<char>,
    t: Seq<char>,
    d: Seq<char>,
    i: Seq<char>,
    s: u64,
    p: Seq<char>,
    k: Seq<Seq<char>>,
    n: Seq<char>,
    di: Seq<char>,
    sig_prev: Seq<char>,
    sig_new: Seq<char>,
) -> Seq<u8> {
    json_member(seq![100u8], true) + json_str(d)
        + json_member(seq![100u8, 105], false) + json_str(di)
        + json_member(seq![105u8], false) + json_str(i)
        + json_member(seq![107u8], false) + json_str_array(k)
        + json_member(seq![110u8], false) + json_str(n)
        + json_member(seq![112u8], false) + json_str(p)
        + json_member(seq![115u8], false) + decimal(s as nat)
        + json_member(seq![115u8, 105, 103, 95, 110, 101, 119], false) + json_str(sig_new)
        + json_member(seq![115u8, 105, 103, 95, 112, 114, 101, 118], false) + json_str(sig_prev)
        + json_member(seq![116u8], false) + json_str(t)
        + json_member(seq![118u8], false) + json_str(v)
        + seq![125u8]
}

/// The bytes both rotation signatures cover: the JSON with both signatures blank.
pub open spec fn rot_signed_bytes(e: RotationEvent) -> Seq<u8> {
    rot_json_of(e.v@, e.t@, e.d@, e.i@, e.s, e.p@, views(e.k@), e.n@, e.di@, seq![], seq![])
}

/// The bytes a rotation event's digest covers: the JSON with `d` and both signatures blank.
pub open spec fn rot_digest_input(e: RotationEvent) -> Seq<u8> {
    rot_json_of(e.v@, e.t@, seq![], e.i@, e.s, e.p@, views(e.k@), e.n@, e.di@, seq![], seq![])
}

/// The BLAKE3 digest of a rotation event.
pub open spec fn rot_digest(e: RotationEvent) -> Seq<u8> {
    blake3_digest(rot_digest_input(e))
}

proof fn lemma_empty_str_json()
    ensures
        json_str(seq![]) == json_string(seq![]),
{
    assert(encode_utf8(Seq::<char>::empty()) =~= Seq::<u8>::empty());
}

impl InceptionEvent {
    /// The JSON text of this event with `sig` blank, and `d`, `i` blank too
    /// unless `with_id`.
    fn json_bytes(&self, with_id: bool) -> (r: Vec<u8>)
        ensures
            r@ == ixn_json_of(
                self.v@,
                self.t@,
                if with_id { self.d@ } else { seq![] },
                if with_id { self.i@ } else { seq![] },
                self.s,
                self.kt,
                views(self.k@),
                self.n@,
                self.di@,
                seq![],
            ),
    {
        proof {
            lemma_empty_str_json();
            reveal(ixn_json_of);
        }
        let mut out: Vec<u8> = Vec::new();
        push_member(&mut out, &[100u8], true);
        if with_id {
            push_json_str(&mut out, self.d.as_str());
        } else {
            push_empty_json_str(&mut out);
        }
        push_member(&mut out, &[100u8, 105], false);
        push_json_str(&mut out, self.di.as_str());
        push_member(&mut out, &[105u8], false);
        if with_id {
            push_json_str(&mut out, self.i.as_str());
        } else {
            push_empty_json_str(&mut out);
        }
        push_member(&mut out, &[107u8], false);
        push_json_str_array(&mut out, self.k.as_slice());
        push_member(&mut out, &[107u8, 116], false);
        push_decimal(&mut out, self.kt as u64);
        push_member(&mut out, &[110u8], false);
        push_json_str(&mut out, self.n.as_str());
        push_member(&mut out, &[115u8], false);
        push_decimal(&mut out, self.s);
        push_member(&mut out, &[115u8, 105, 103], false);
        push_empty_json_str(&mut out);
        push_member(&mut out, &[116u8], false);
        push_json_str(&mut out, self.t.as_str());
        push_member(&mut out, &[118u8], false);
        push_json_str(&mut out, self.v.as_str());
        out.push(125);
        proof {
            assert([118u8]@ =~= seq![118u8]);
            assert([116u8]@ =~= seq![116u8]);
            assert([100u8]@ =~= seq![100u8]);
            assert([105u8]@ =~= seq![105u8]);
            assert([115u8]@ =~= seq![115u8]);
            assert([107u8, 116]@ =~= seq![107u8, 116]);
            assert([107u8]@ =~= seq![107u8]);
            assert([110u8]@ =~= seq![110u8]);
            assert([100u8, 105]@ =~= seq![100u8, 105]);
            assert([115u8, 105, 103]@ =~= seq![115u8, 105, 103]);
        }
        assert(out@ =~= ixn_json_of(
            self.v@,
            self.t@,
            if with_id { self.d@ } else { seq![] },
            if with_id { self.i@ } else { seq![] },
            self.s,
            self.kt,
            views(self.k@),
            self.n@,
            self.di@,
            seq![],
        ));
        out
    }
}


// ── Parsing keys and signatures ───────────────────────────────────────────

/// The public key that the base64url string `s` carries: its decoded bytes
/// when they are 32 bytes and decompress to a point.
pub open spec fn parse_key_str(s: Seq<char>) -> Option<Seq<u8>> {
    match b64url_decode_spec(encode_utf8(s)) {
        Some(b) => if b.len() == 32 && ed25519_point_valid(b) {
            Some(b)
        } else {
            None
        },
        None => None,
    }
}

/// The public key that the key list `k` carries in its first entry.
pub open spec fn parse_key_spec(k: Seq<Seq<char>>) -> Option<Seq<u8>> {
    if k.len() == 0 {
        None
    } else {
        parse_key_str(k[0])
    }
}

/// The signature that the hex string `s` carries: its 64 decoded bytes.
pub open spec fn parse_sig_spec(s: Seq<char>) -> Option<Seq<u8>> {
    match hex_decode_spec(encode_utf8(s)) {
        Some(b) => if b.len() == 64 {
            Some(b)
        } else {
            None
        },
        None => None,
    }
}

/// Parses a base64url-encoded Ed25519 public key.
pub fn parse_verifying_key(b64: &str) -> (r: Result<[u8; 32], CryptoError>)
    ensures
        r is Ok <==> parse_key_str(b64@) is Some,
        r matches Ok(b) ==> parse_key_str(b64@) == Some(b@),
        r matches Err(e) ==> e.kind() == CryptoErrorKind::SignatureInvalid,
{
    let bytes = match base64url_decode(b64) {
        Ok(b) => b,
        Err(()) => {
            return Err(CryptoError::SignatureInvalid(String::from_str("Bad base64url public key")));
        },
    };
    if bytes.len() != 32 {
        return Err(CryptoError::SignatureInvalid(String::from_str("Public key must be 32 bytes")));
    }
    let arr = to_array32(bytes.as_slice());
    match ed25519_point_check(&arr) {
        Ok(()) => Ok(arr),
        Err(msg) => Err(CryptoError::SignatureInvalid(msg)),
    }
}

/// Parses a hex-encoded 64-byte signature.
pub fn parse_signature(hex_str: &str) -> (r: Result<[u8; 64], CryptoError>)
    ensures
        r is Ok <==> parse_sig_spec(hex_str@) is Some,
        r matches Ok(b) ==> parse_sig_spec(hex_str@) == Some(b@),
        r matches Err(e) ==> e.kind() == CryptoErrorKind::SignatureInvalid,
{
    let bytes = match hex_decode(hex_str) {
        Some(b) => b,
        None => {
            return Err(CryptoError::SignatureInvalid(String::from_str("Cannot hex-decode signature")));
        },
    };
    if bytes.len() != 64 {
        return Err(CryptoError::SignatureInvalid(String::from_str("Signature must be 64 bytes")));
    }
    Ok(to_array64(bytes.as_slice()))
}

/// The outcome of checking an inception event's self-signature.
pub open spec fn ixn_signature_check(e: InceptionEvent) -> Result<(), CryptoErrorKind> {
    match parse_key_spec(views(e.k@)) {
        None => Err(CryptoErrorKind::SignatureInvalid),
        Some(pk) => match parse_sig_spec(e.sig@) {
            None => Err(CryptoErrorKind::SignatureInvalid),
            Some(sig) => if ed25519_verifies(pk, ixn_signed_bytes(e), sig) {
                Ok(())
            } else {
                Err(CryptoErrorKind::SignatureInvalid)
            },
        },
    }
}

/// The Ed25519 signature of `msg` under `secret` passes strict verification
/// under the matching public key. This holds for every message except one
/// whose signing nonce is a multiple of the group order (its `R` is then the
/// identity, which strict verification refuses); no such message is known.
/// The signing wrapper does not claim it: statements that rest on it take it
/// as a premise.
pub open spec fn signature_sound(secret: Seq<u8>, msg: Seq<u8>) -> bool {
    ed25519_verifies(ed25519_public(secret), msg, ed25519_signature(secret, msg))
}

/// The fields of an inception event made by `InceptionEvent::new` for the
/// secret key `secret` and the commitment `commitment`.
pub open spec fn ixn_made_by(e: InceptionEvent, secret: Seq<u8>, commitment: Seq<u8>) -> bool {
    &&& e.v@ == "TSC2.0"@
    &&& e.t@ == "ixn"@
    &&& e.s == 0
    &&& e.kt == 1
    &&& views(e.k@) == seq![ascii_chars(b64_bytes(ed25519_public(secret), true))]
    &&& e.n@ == hex_chars(commitment)
    &&& commitment.len() == 32
    &&& !all_zero(commitment)
    &&& e.di@ == "m/44'/7777'/0'/0'/0'"@
    &&& e.d@ == hex_chars(ixn_digest(e))
    &&& e.i@ == e.d@
    &&& e.sig@ == hex_chars(ed25519_signature(secret, ixn_signed_bytes(e)))
    &&& ed25519_public(secret).len() == 32
    &&& ed25519_point_valid(ed25519_public(secret))
    &&& ed25519_signature(secret, ixn_signed_bytes(e)).len() == 64
}

/// An inception event made by `InceptionEvent::new` passes its signature
/// check when its signature is sound.
pub proof fn lemma_made_inception_verifies(e: InceptionEvent, secret: Seq<u8>, commitment: Seq<u8>)
    requires
        ixn_made_by(e, secret, commitment),
        signature_sound(secret, ixn_signed_bytes(e)),
    ensures
        ixn_signature_check(e) == Ok::<(), CryptoErrorKind>(()),
{
    lemma_parse_own_key(views(e.k@), secret);
    lemma_parse_own_sig(ed25519_signature(secret, ixn_signed_bytes(e)));
}

/// A key list holding the base64url of a public key made from a secret key
/// parses back to that public key.
pub proof fn lemma_parse_own_key(k: Seq<Seq<char>>, secret: Seq<u8>)
    requires
        k == seq![ascii_chars(b64_bytes(ed25519_public(secret), true))],
        ed25519_public(secret).len() == 32,
        ed25519_point_valid(ed25519_public(secret)),
    ensures
        parse_key_spec(k) == Some(ed25519_public(secret)),
{
    let pk = ed25519_public(secret);
    lemma_base64url_roundtrip(pk);
    lemma_b64_ascii(pk);
    crate::text::lemma_ascii_encoding(b64_bytes(pk, true));
}

proof fn lemma_b64_ascii(data: Seq<u8>)
    ensures
        crate::text::all_ascii(b64_bytes(data, true)),
    decreases data.len(),
{
    if data.len() >= 3 {
        lemma_b64_ascii(data.skip(3));
    }
}

/// A signature's hex string parses back to the signature.
pub proof fn lemma_parse_own_sig(sig: Seq<u8>)
    requires
        sig.len() == 64,
    ensures
        parse_sig_spec(hex_chars(sig)) == Some(sig),
{
    lemma_hex_roundtrip(sig);
}

impl InceptionEvent {
    /// Creates and self-signs a new inception event; refuses an all-zero
    /// pre-rotation commitment.
    pub fn new(active_key: &SigningKey, next_commitment: [u8; 32]) -> (r: Result<Self, CryptoError>)
        ensures
            r is Err <==> all_zero(next_commitment@),
            r matches Err(e) ==> e.kind() == CryptoErrorKind::KeyDerivation,
            r matches Ok(e) ==> ixn_made_by(e, active_key.secret@, next_commitment@)
                && (signature_sound(active_key.secret@, ixn_signed_bytes(e))
                    ==> ixn_signature_check(e) == Ok::<(), CryptoErrorKind>(())),
    {
        if is_all_zero(&next_commitment) {
            return Err(CryptoError::KeyDerivation(
                String::from_str("Pre-rotation commitment must not be all-zero (RFC-002 §2.3)"),
            ));
        }
        let vk = active_key.verifying_key();
        let mut k: Vec<String> = Vec::new();
        k.push(base64url(&vk.bytes));
        let mut event = InceptionEvent {
            v: String::from_str("TSC2.0"),
            t: String::from_str("ixn"),
            d: String::new(),
            i: String::new(),
            s: 0,
            kt: 1,
            k,
            n: hex_encode(&next_commitment),
            di: String::from_str("m/44'/7777'/0'/0'/0'"),
            sig: String::new(),
        };
        let digest = match event.calculate_digest() {
            Ok(d) => d,
            Err(e) => return Err(e),
        };
        event.d = hex_encode(&digest);
        event.i = hex_encode(&digest);
        let msg = event.json_bytes(true);
        let sig = active_key.sign(msg.as_slice());
        event.sig = hex_encode(&sig);
        proof {
            assert(views(event.k@) =~= seq![ascii_chars(b64_bytes(ed25519_public(active_key.secret@), true))]);
            lemma_parse_own_key(views(event.k@), active_key.secret@);
            lemma_parse_own_sig(sig@);
        }
        Ok(event)
    }

    /// Verifies the Ed25519 self-signature (over the event with `sig` blank).
    pub fn verify_signature(&self) -> (r: Result<(), CryptoError>)
        requires
            self.k@.len() > 0,
        ensures
            r is Ok <==> ixn_signature_check(*self) is Ok,
            r matches Err(e) ==> ixn_signature_check(*self) == Err::<(), CryptoErrorKind>(e.kind()),
    {
        assert(views(self.k@)[0] == self.k@[0]@);
        let vk = match parse_verifying_key(self.k[0].as_str()) {
            Ok(vk) => vk,
            Err(e) => return Err(e),
        };
        let sig = match parse_signature(self.sig.as_str()) {
            Ok(s) => s,
            Err(e) => return Err(e),
        };
        let msg = self.json_bytes(true);
        match ed25519_verify_strict(&vk, msg.as_slice(), &sig) {
            Ok(()) => Ok(()),
            Err(m) => Err(CryptoError::SignatureInvalid(m)),
        }
    }

    /// BLAKE3 of the event with `d`, `i`, `sig` blank.
    pub fn calculate_digest(&self) -> (r: Result<[u8; 32], CryptoError>)
        ensures
            r matches Ok(d) && d@ == ixn_digest(*self),
    {
        let bytes = self.json_bytes(false);
        Ok(blake3_hash(bytes.as_slice()))
    }
}


impl RotationEvent {
    /// The JSON text of this event with both signatures blank, and `d` blank
    /// too unless `with_digest`.
    fn json_bytes(&self, with_digest: bool) -> (r: Vec<u8>)
        ensures
            r@ == rot_json_of(
                self.v@,
                self.t@,
                if with_digest { self.d@ } else { seq![] },
                self.i@,
                self.s,
                self.p@,
                views(self.k@),
                self.n@,
                self.di@,
                seq![],
                seq![],
            ),
    {
        proof {
            lemma_empty_str_json();
            reveal(rot_json_of);
        }
        let mut out: Vec<u8> = Vec::new();
        push_member(&mut out, &[100u8], true);
        if with_digest {
            push_json_str(&mut out, self.d.as_str());
        } else {
            push_empty_json_str(&mut out);
        }
        push_member(&mut out, &[100u8, 105], false);
        push_json_str(&mut out, self.di.as_str());
        push_member(&mut out, &[105u8], false);
        push_json_str(&mut out, self.i.as_str());
        push_member(&mut out, &[107u8], false);
        push_json_str_array(&mut out, self.k.as_slice());
        push_member(&mut out, &[110u8], false);
        push_json_str(&mut out, self.n.as_str());
        push_member(&mut out, &[112u8], false);
        push_json_str(&mut out, self.p.as_str());
        push_member(&mut out, &[115u8], false);
        push_decimal(&mut out, self.s);
        push_member(&mut out, &[115u8, 105, 103, 95, 110, 101, 119], false);
        push_empty_json_str(&mut out);
        push_member(&mut out, &[115u8, 105, 103, 95, 112, 114, 101, 118], false);
        push_empty_json_str(&mut out);
        push_member(&mut out, &[116u8], false);
        push_json_str(&mut out, self.t.as_str());
        push_member(&mut out, &[118u8], false);
        push_json_str(&mut out, self.v.as_str());
        out.push(125);
        proof {
            assert([118u8]@ =~= seq![118u8]);
            assert([116u8]@ =~= seq![116u8]);
            assert([100u8]@ =~= seq![100u8]);
            assert([105u8]@ =~= seq![105u8]);
            assert([115u8]@ =~= seq![115u8]);
            assert([112u8]@ =~= seq![112u8]);
            assert([107u8]@ =~= seq![107u8]);
            assert([110u8]@ =~= seq![110u8]);
            assert([100u8, 105]@ =~= seq![100u8, 105]);
            assert([115u8, 105, 103, 95, 112, 114, 101, 118]@ =~= seq![115u8, 105, 103, 95, 112, 114, 101, 118]);
            assert([115u8, 105, 103, 95, 110, 101, 119]@ =~= seq![115u8, 105, 103, 95, 110, 101, 119]);
        }
        assert(out@ =~= rot_json_of(
            self.v@,
            self.t@,
            if with_digest { self.d@ } else { seq![] },
            self.i@,
            self.s,
            self.p@,
            views(self.k@),
            self.n@,
            self.di@,
            seq![],
            seq![],
        ));
        out
    }

    /// Creates and dual-signs a rotation event: `prev_key` is the key being
    /// rotated away from, `new_key` the incoming one, `next_commitment` the
    /// BLAKE3 of the next pre-rotation public key, `prev_digest` the digest of
    /// the previous event, `seq` its sequence number plus one, `ghost_id` the
    /// unchanged GhostID and `deriv_path` the derivation path of `new_key`.
    /// Refuses an all-zero commitment.
    pub fn new(
        prev_key: &SigningKey,
        new_key: &SigningKey,
        next_commitment: [u8; 32],
        prev_digest: [u8; 32],
        seq: u64,
        ghost_id: &str,
        deriv_path: &str,
    ) -> (r: Result<Self, CryptoError>)
        ensures
            r is Err <==> all_zero(next_commitment@),
            r matches Err(e) ==> e.kind() == CryptoErrorKind::KeyDerivation,
            r matches Ok(e) ==> rot_made_by(
                e,
                prev_key.secret@,
                new_key.secret@,
                next_commitment@,
                prev_digest@,
                seq,
                ghost_id@,
                deriv_path@,
            ),
    {
        if is_all_zero(&next_commitment) {
            return Err(CryptoError::KeyDerivation(
                String::from_str("Next pre-rotation commitment must not be all-zero"),
            ));
        }
        let vk = new_key.verifying_key();
        let mut k: Vec<String> = Vec::new();
        k.push(base64url(&vk.bytes));
        let mut event = RotationEvent {
            v: String::from_str("TSC2.0"),
            t: String::from_str("rot"),
            d: String::new(),
            i: String::from_str(ghost_id),
            s: seq,
            p: hex_encode(&prev_digest),
            k,
            n: hex_encode(&next_commitment),
            di: String::from_str(deriv_path),
            sig_prev: String::new(),
            sig_new: String::new(),
        };
        let digest = match event.calculate_digest() {
            Ok(d) => d,
            Err(e) => return Err(e),
        };
        event.d = hex_encode(&digest);
        let msg = event.json_bytes(true);
        event.sig_prev = hex_encode(&prev_key.sign(msg.as_slice()));
        event.sig_new = hex_encode(&new_key.sign(msg.as_slice()));
        proof {
            assert(views(event.k@) =~= seq![ascii_chars(b64_bytes(ed25519_public(new_key.secret@), true))]);
        }
        Ok(event)
    }

    /// BLAKE3 of the event with `d`, `sig_prev`, `sig_new` blank.
    pub fn calculate_digest(&self) -> (r: Result<[u8; 32], CryptoError>)
        ensures
            r matches Ok(d) && d@ == rot_digest(*self),
    {
        let bytes = self.json_bytes(false);
        Ok(blake3_hash(bytes.as_slice()))
    }
}

/// The fields of a rotation event made by `RotationEvent::new`.
pub open spec fn rot_made_by(
    e: RotationEvent,
    prev_secret: Seq<u8>,
    new_secret: Seq<u8>,
    commitment: Seq<u8>,
    prev_digest: Seq<u8>,
    seq: u64,
    ghost_id: Seq<char>,
    deriv_path: Seq<char>,
) -> bool {
    &&& e.v@ == "TSC2.0"@
    &&& e.t@ == "rot"@
    &&& e.i@ == ghost_id
    &&& e.s == seq
    &&& e.p@ == hex_chars(prev_digest)
    &&& views(e.k@) == seq![ascii_chars(b64_bytes(ed25519_public(new_secret), true))]
    &&& e.n@ == hex_chars(commitment)
    &&& commitment.len() == 32
    &&& !all_zero(commitment)
    &&& e.di@ == deriv_path
    &&& e.d@ == hex_chars(rot_digest(e))
    &&& e.sig_prev@ == hex_chars(ed25519_signature(prev_secret, rot_signed_bytes(e)))
    &&& e.sig_new@ == hex_chars(ed25519_signature(new_secret, rot_signed_bytes(e)))
    &&& ed25519_public(new_secret).len() == 32
    &&& ed25519_point_valid(ed25519_public(new_secret))
    &&& ed25519_signature(prev_secret, rot_signed_bytes(e)).len() == 64
    &&& ed25519_signature(new_secret, rot_signed_bytes(e)).len() == 64
}

impl KeyEvent {
    /// The sequence number of an event.
    pub open spec fn spec_seq(self) -> u64 {
        match self {
            KeyEvent::Inception(e) => e.s,
            KeyEvent::Rotation(e) => e.s,
        }
    }

    /// The BLAKE3 digest of an event.
    pub open spec fn spec_digest(self) -> Seq<u8> {
        match self {
            KeyEvent::Inception(e) => ixn_digest(e),
            KeyEvent::Rotation(e) => rot_digest(e),
        }
    }

    /// The sequence number of this event.
    pub fn seq(&self) -> (r: u64)
        ensures
            r == self.spec_seq(),
    {
        match self {
            KeyEvent::Inception(e) => e.s,
            KeyEvent::Rotation(e) => e.s,
        }
    }

    /// The BLAKE3 digest of this event.
    pub fn digest(&self) -> (r: Result<[u8; 32], CryptoError>)
        ensures
            r matches Ok(d) && d@ == self.spec_digest(),
    {
        match self {
            KeyEvent::Inception(e) => e.calculate_digest(),
            KeyEvent::Rotation(e) => e.calculate_digest(),
        }
    }
}

// ── Verification engine ───────────────────────────────────────────────────

/// What the verifier carries from one event to the next: the current public
/// key, the current pre-rotation commitment, the digest of the last event and
/// the GhostID.
pub struct LogState {
    pub key: Seq<u8>,
    pub commitment: Seq<u8>,
    pub prev_digest: Seq<u8>,
    pub ghost_id: Seq<char>,
}

/// The state after an inception event, or the error it fails with.
pub open spec fn inception_state(e: InceptionEvent) -> Result<LogState, CryptoErrorKind> {
    match ixn_signature_check(e) {
        Err(k) => Err(k),
        Ok(()) => match hex_decode_spec(encode_utf8(e.n@)) {
            None => Err(CryptoErrorKind::InvalidEventLog),
            Some(c) => if all_zero(c) {
                Err(CryptoErrorKind::InvalidEventLog)
            } else {
                Ok(
                LogState {
                    key: parse_key_spec(views(e.k@))->Some_0,
                    commitment: c,
                    prev_digest: ixn_digest(e),
                    ghost_id: hex_chars(ixn_digest(e)),
                },
            )
            },
        },
    }
}

/// The outcome of checking rotation `r` at position `expected` after state `st`:
/// sequence number, unchanged GhostID, previous digest, the new key against
/// the previous commitment, a next commitment that is not all zero, then
/// both signatures.
#[verifier::opaque]
pub open spec fn rotation_check(r: RotationEvent, st: LogState, expected: nat) -> Result<(), CryptoErrorKind> {
    if r.s != expected {
        Err(CryptoErrorKind::InvalidEventLog)
    } else if r.i@ != st.ghost_id {
        Err(CryptoErrorKind::InvalidEventLog)
    } else if r.p@ != hex_chars(st.prev_digest) {
        Err(CryptoErrorKind::InvalidEventLog)
    } else {
        match parse_key_spec(views(r.k@)) {
            None => Err(CryptoErrorKind::SignatureInvalid),
            Some(nk) => if blake3_digest(nk) != st.commitment {
                Err(CryptoErrorKind::InvalidEventLog)
            } else if next_commitment_zero(r) {
                Err(CryptoErrorKind::InvalidEventLog)
            } else {
                match parse_sig_spec(r.sig_prev@) {
                    None => Err(CryptoErrorKind::SignatureInvalid),
                    Some(sp) => if !ed25519_verifies(st.key, rot_signed_bytes(r), sp) {
                        Err(CryptoErrorKind::SignatureInvalid)
                    } else {
                        match parse_sig_spec(r.sig_new@) {
                            None => Err(CryptoErrorKind::SignatureInvalid),
                            Some(sn) => if !ed25519_verifies(nk, rot_signed_bytes(r), sn) {
                                Err(CryptoErrorKind::SignatureInvalid)
                            } else {
                                Ok(())
                            },
                        }
                    },
                }
            },
        }
    }
}

/// Whether the rotation's `n` field decodes to an all-zero commitment.
pub open spec fn next_commitment_zero(r: RotationEvent) -> bool {
    match hex_decode_spec(encode_utf8(r.n@)) {
        Some(c) => all_zero(c),
        None => false,
    }
}

/// The state after an accepted rotation.
pub open spec fn rotation_state(r: RotationEvent, st: LogState) -> LogState {
    LogState {
        key: parse_key_spec(views(r.k@))->Some_0,
        commitment: match hex_decode_spec(encode_utf8(r.n@)) {
            Some(c) => c,
            None => seq![],
        },
        prev_digest: rot_digest(r),
        ghost_id: st.ghost_id,
    }
}

/// The state after the whole log, or the error verification fails with.
pub open spec fn log_state(log: Seq<KeyEvent>) -> Result<LogState, CryptoErrorKind>
    decreases log.len(),
{
    if log.len() == 0 {
        Err(CryptoErrorKind::InvalidEventLog)
    } else if log.len() == 1 {
        match log[0] {
            KeyEvent::Inception(e) => inception_state(e),
            KeyEvent::Rotation(_) => Err(CryptoErrorKind::InvalidEventLog),
        }
    } else {
        match log_state(log.drop_last()) {
            Err(k) => Err(k),
            Ok(st) => match log.last() {
                KeyEvent::Inception(_) => Err(CryptoErrorKind::InvalidEventLog),
                KeyEvent::Rotation(r) => match rotation_check(r, st, (log.len() - 1) as nat) {
                    Err(k) => Err(k),
                    Ok(()) => Ok(rotation_state(r, st)),
                },
            },
        }
    }
}

/// The current public key of a valid log, or the error it is refused with.
pub open spec fn verify_log_spec(log: Seq<KeyEvent>) -> Result<Seq<u8>, CryptoErrorKind> {
    match log_state(log) {
        Ok(st) => Ok(st.key),
        Err(k) => Err(k),
    }
}

proof fn lemma_state_key_valid(log: Seq<KeyEvent>)
    requires
        log_state(log) is Ok,
    ensures
        ed25519_point_valid(log_state(log)->Ok_0.key),
        log_state(log)->Ok_0.key.len() == 32,
    decreases log.len(),
{
    reveal(rotation_check);
    if log.len() > 1 {
        lemma_state_key_valid(log.drop_last());
    }
}

/// Checking rotation `r` at position `expected` after state `st` gets as
/// far as reading its key list: its sequence number, GhostID and previous
/// digest all match.
pub open spec fn rotation_reaches_key(r: RotationEvent, st: LogState, expected: nat) -> bool {
    &&& r.s == expected
    &&& r.i@ == st.ghost_id
    &&& r.p@ == hex_chars(st.prev_digest)
}

/// Verifying `log` never meets an empty key list where it reads the first
/// key: the inception event's list is read first of all, a rotation's once
/// the log before it is valid and the rotation reaches its key list.
pub open spec fn log_total(log: Seq<KeyEvent>) -> bool
    decreases log.len(),
{
    if log.len() == 0 {
        true
    } else if log.len() == 1 {
        match log[0] {
            KeyEvent::Inception(e) => e.k@.len() > 0,
            KeyEvent::Rotation(_) => true,
        }
    } else {
        &&& log_total(log.drop_last())
        &&& match log_state(log.drop_last()) {
            Ok(st) => match log.last() {
                KeyEvent::Rotation(r) => rotation_reaches_key(r, st, (log.len() - 1) as nat) ==> r.k@.len() > 0,
                KeyEvent::Inception(_) => true,
            },
            Err(_) => true,
        }
    }
}

proof fn lemma_total_prefix(log: Seq<KeyEvent>, n: int)
    requires
        1 <= n <= log.len(),
        log_total(log),
    ensures
        log_total(log.subrange(0, n)),
    decreases log.len() - n,
{
    if n < log.len() {
        lemma_total_prefix(log.drop_last(), n);
        assert(log.drop_last().subrange(0, n) =~= log.subrange(0, n));
    } else {
        assert(log.subrange(0, n) =~= log);
    }
}

proof fn lemma_total_after_error(log: Seq<KeyEvent>, n: int)
    requires
        1 <= n <= log.len(),
        log_total(log.subrange(0, n)),
        log_state(log.subrange(0, n)) is Err,
    ensures
        log_total(log),
    decreases log.len() - n,
{
    if n < log.len() {
        let next = log.subrange(0, n + 1);
        assert(next.drop_last() =~= log.subrange(0, n));
        assert(log_total(next));
        assert(log_state(next) is Err);
        lemma_total_after_error(log, n + 1);
    } else {
        assert(log.subrange(0, n) =~= log);
    }
}

fn verify_rotation(
    rot: &RotationEvent,
    ghost_id: &String,
    expected_seq: u64,
    prev_digest: &[u8; 32],
    prev_key: &[u8; 32],
    prev_commitment: &[u8],
) -> (r: Option<Result<[u8; 32], CryptoError>>)
    requires
        ed25519_point_valid(prev_key@),
    ensures
        ({
            let st = LogState {
                key: prev_key@,
                commitment: prev_commitment@,
                prev_digest: prev_digest@,
                ghost_id: ghost_id@,
            };
            &&& r is None <==> (rotation_reaches_key(*rot, st, expected_seq as nat) && rot.k@.len() == 0)
            &&& r matches Some(Ok(nk)) ==> parse_key_spec(views(rot.k@)) == Some(nk@)
            &&& match r {
                Some(Ok(_)) => rotation_check(*rot, st, expected_seq as nat) is Ok,
                Some(Err(e)) => rotation_check(*rot, st, expected_seq as nat) == Err::<(), CryptoErrorKind>(e.kind()),
                None => true,
            }
        }),
{
    reveal(rotation_check);
    if rot.s != expected_seq {
        let mut m = String::from_str("ROT: expected seq ");
        m.append(decimal_string(expected_seq).as_str());
        m.append(", got ");
        m.append(decimal_string(rot.s).as_str());
        return Some(Err(CryptoError::InvalidEventLog(m)));
    }
    if !(rot.i == *ghost_id) {
        return Some(Err(CryptoError::InvalidEventLog(String::from_str("ROT: GhostID changed across rotation"))));
    }
    let expected_p = hex_encode(prev_digest);
    if !(rot.p == expected_p) {
        return Some(Err(CryptoError::InvalidEventLog(String::from_str("ROT: previous event hash mismatch"))));
    }
    if rot.k.len() == 0 {
        return None;
    }
    assert(views(rot.k@)[0] == rot.k@[0]@);
    let new_vk = match parse_verifying_key(rot.k[0].as_str()) {
        Ok(k) => k,
        Err(e) => return Some(Err(e)),
    };
    let h = blake3_hash(&new_vk);
    if !bytes_equal(&h, prev_commitment) {
        return Some(Err(CryptoError::InvalidEventLog(
            String::from_str("ROT: new key does not match pre-rotation commitment"),
        )));
    }
    match hex_decode(rot.n.as_str()) {
        Some(c) => {
            if is_all_zero(c.as_slice()) {
                return Some(Err(CryptoError::InvalidEventLog(
                    String::from_str("ROT: next pre-rotation commitment is all-zero"),
                )));
            }
        },
        None => {},
    }
    let msg = rot.json_bytes(true);
    let sig_prev = match parse_signature(rot.sig_prev.as_str()) {
        Ok(s) => s,
        Err(_) => return Some(Err(CryptoError::SignatureInvalid(String::from_str("ROT: cannot parse sig_prev")))),
    };
    match ed25519_verify_strict(prev_key, msg.as_slice(), &sig_prev) {
        Ok(()) => {},
        Err(m) => {
            let mut t = String::from_str("ROT sig_prev: ");
            t.append(m.as_str());
            return Some(Err(CryptoError::SignatureInvalid(t)));
        },
    }
    let sig_new = match parse_signature(rot.sig_new.as_str()) {
        Ok(s) => s,
        Err(_) => return Some(Err(CryptoError::SignatureInvalid(String::from_str("ROT: cannot parse sig_new")))),
    };
    match ed25519_verify_strict(&new_vk, msg.as_slice(), &sig_new) {
        Ok(()) => Some(Ok(new_vk)),
        Err(m) => {
            let mut t = String::from_str("ROT sig_new: ");
            t.append(m.as_str());
            Some(Err(CryptoError::SignatureInvalid(t)))
        },
    }
}

/// Verifies an event log as [`verify_event_log`] does, and reports instead
/// of failing when it meets an empty key list where it reads a key (`None`
/// exactly when the log is not [`log_total`]).
pub fn check_event_log(log: &[KeyEvent]) -> (r: Option<Result<VerifyingKey, CryptoError>>)
    ensures
        r is None <==> !log_total(log@),
        match r {
            Some(Ok(vk)) => verify_log_spec(log@) == Ok::<Seq<u8>, CryptoErrorKind>(vk.bytes@),
            Some(Err(e)) => verify_log_spec(log@) == Err::<Seq<u8>, CryptoErrorKind>(e.kind()),
            None => true,
        },
{
    if log.len() == 0 {
        return Some(Err(CryptoError::InvalidEventLog(String::from_str("Event log is empty"))));
    }
    proof {
        assert(log@.subrange(0, 1) =~= seq![log@[0]]);
    }
    let ixn = match &log[0] {
        KeyEvent::Inception(e) => e,
        KeyEvent::Rotation(_) => {
            proof {
                lemma_log_state_prefix_error(log@, 1);
                lemma_total_after_error(log@, 1);
            }
            return Some(Err(CryptoError::InvalidEventLog(String::from_str("First event must be Inception"))));
        },
    };
    if ixn.k.len() == 0 {
        proof {
            if log_total(log@) {
                lemma_total_prefix(log@, 1);
            }
        }
        return None;
    }
    match ixn.verify_signature() {
        Ok(()) => {},
        Err(e) => {
            proof {
                lemma_log_state_prefix_error(log@, 1);
                lemma_total_after_error(log@, 1);
            }
            return Some(Err(e));
        },
    }
    assert(views(ixn.k@)[0] == ixn.k@[0]@);
    let mut current_key = match parse_verifying_key(ixn.k[0].as_str()) {
        Ok(k) => k,
        Err(e) => return Some(Err(e)),
    };
    let mut current_commitment: Vec<u8> = match hex_decode(ixn.n.as_str()) {
        Some(c) => c,
        None => {
            proof {
                lemma_log_state_prefix_error(log@, 1);
                lemma_total_after_error(log@, 1);
            }
            return Some(Err(CryptoError::InvalidEventLog(String::from_str("Bad inception commitment encoding"))));
        },
    };
    if is_all_zero(current_commitment.as_slice()) {
        proof {
            lemma_log_state_prefix_error(log@, 1);
            lemma_total_after_error(log@, 1);
        }
        return Some(Err(CryptoError::InvalidEventLog(String::from_str("Inception commitment is all-zero"))));
    }
    let mut prev_digest = match ixn.calculate_digest() {
        Ok(d) => d,
        Err(e) => return Some(Err(e)),
    };
    let ghost_id = hex_encode(&prev_digest);
    let mut idx: usize = 1;
    while idx < log.len()
        invariant
            1 <= idx <= log@.len(),
            log_total(log@.subrange(0, idx as int)),
            log_state(log@.subrange(0, idx as int)) == Ok::<LogState, CryptoErrorKind>(LogState {
                key: current_key@,
                commitment: current_commitment@,
                prev_digest: prev_digest@,
                ghost_id: ghost_id@,
            }),
        decreases log@.len() - idx,
    {
        let ghost next = log@.subrange(0, idx + 1);
        proof {
            lemma_state_key_valid(log@.subrange(0, idx as int));
            assert(next.drop_last() =~= log@.subrange(0, idx as int));
            assert(next.last() == log@[idx as int]);
        }
        match &log[idx] {
            KeyEvent::Inception(_) => {
                proof {
                    lemma_log_state_prefix_error(log@, idx + 1);
                    lemma_total_after_error(log@, idx + 1);
                }
                return Some(Err(CryptoError::InvalidEventLog(
                    String::from_str("Inception event found after position 0"),
                )));
            },
            KeyEvent::Rotation(rot) => {
                current_key = match verify_rotation(rot, &ghost_id, idx as u64, &prev_digest, &current_key, current_commitment.as_slice()) {
                    Some(Ok(nk)) => nk,
                    Some(Err(e)) => {
                        proof {
                            lemma_log_state_prefix_error(log@, idx + 1);
                            lemma_total_after_error(log@, idx + 1);
                        }
                        return Some(Err(e));
                    },
                    None => {
                        proof {
                            if log_total(log@) {
                                lemma_total_prefix(log@, idx + 1);
                            }
                        }
                        return None;
                    },
                };
                current_commitment = match hex_decode(rot.n.as_str()) {
                    Some(c) => c,
                    None => Vec::new(),
                };
                prev_digest = match rot.calculate_digest() {
                    Ok(d) => d,
                    Err(e) => return Some(Err(e)),
                };
            },
        }
        idx = idx + 1;
    }
    assert(log@.subrange(0, idx as int) =~= log@);
    Some(Ok(VerifyingKey { bytes: current_key }))
}

/// Verifies an entire identifier event log from inception through all
/// rotations and returns the current verifying key.
pub fn verify_event_log(log: &[KeyEvent]) -> (r: Result<VerifyingKey, CryptoError>)
    requires
        log_total(log@),
    ensures
        match r {
            Ok(vk) => verify_log_spec(log@) == Ok::<Seq<u8>, CryptoErrorKind>(vk.bytes@),
            Err(e) => verify_log_spec(log@) == Err::<Seq<u8>, CryptoErrorKind>(e.kind()),
        },
{
    match check_event_log(log) {
        Some(r) => r,
        None => {
            assert(false);
            Err(CryptoError::InvalidEventLog(String::new()))
        },
    }
}

/// An error on a prefix of the log is the error of the whole log.
proof fn lemma_log_state_prefix_error(log: Seq<KeyEvent>, n: int)
    requires
        1 <= n <= log.len(),
        log_state(log.subrange(0, n)) is Err,
    ensures
        log_state(log) == log_state(log.subrange(0, n)),
    decreases log.len() - n,
{
    if n < log.len() {
        assert(log.subrange(0, n + 1).drop_last() =~= log.subrange(0, n));
        lemma_log_state_prefix_error(log, n + 1);
    } else {
        assert(log.subrange(0, n) =~= log);
    }
}

} // verus!
