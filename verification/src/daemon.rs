//! The daemon's decisions: booting an identity from a mnemonic and the vault,
//! the ephemeral fallback, and the answer to each IPC command once the
//! outside work (disk, network, clock) has been done by the caller.

use vstd::prelude::*;
use vstd::string::*;
use vstd::utf8::*;
use crate::bip39::{commitment_at, commitment_at_index, derive_active_key, derive_key_at_index, generate_sovereign_entropy, key_at, restore_from_phrase};
use crate::bytes::{all_zero, to_array32};
use crate::encoding::{hex_chars, hex_encode, lemma_hex_chars_bytes, hex_bytes};
use crate::error::{CryptoError, CryptoErrorKind};
use crate::gsp::ixn_fields;
use crate::json::decimal_string;
use crate::keri::{InceptionEvent, KeyEvent, RotationEvent, ixn_digest, ixn_made_by, log_state, log_total, rot_made_by, check_event_log, verify_log_spec};
use crate::keys::SigningKey;
use crate::persona::{Persona, lemma_rotation_extends_log, log_at, persona_of_seed, rotation_path, seed_signs_soundly};
use crate::primitives::{bip39_phrase_valid, bip39_seed, blake3_digest, blake3_hash, ed25519_public, hkdf_sha256_32, hkdf_sha256_okm32, os_random_bytes};
use crate::proto::{DaemonStatus, GhostCommand, GhostResponse, VaultState};
use crate::text::{split_whitespace, split_ws, starts_with, trim, trim_ws, views};
use crate::vault::{lock_vault, seal_fits, sealed_by, unlock_spec, unlock_vault, vault_plaintext};

verus! {

broadcast use vstd::utf8::group_utf8_lib;

/// What the daemon knows about the vault at boot.
#[derive(Debug)]
pub enum BootVaultState {
    /// The vault was unlocked; holds the 32-byte key material.
    Unlocked([u8; 32]),
    /// No vault file existed or no mnemonic was supplied.
    Ephemeral,
}

/// The daemon's identity as commands see it.
#[derive(Debug)]
pub struct IdentityState {
    /// Current GhostID (persistent, or `"ephemeral:<short>"`).
    pub ghost_id: String,
    /// Whether a valid vault is loaded.
    pub vault_ok: bool,
}

/// The UTF-8 bytes of `s` begin with those of `"ephemeral"`.
pub open spec fn is_ephemeral_id(s: Seq<char>) -> bool {
    encode_utf8("ephemeral"@).is_prefix_of(encode_utf8(s))
}

/// The vault state reported for an identity.
pub open spec fn vault_state_of(ghost_id: Seq<char>, vault_ok: bool) -> VaultState {
    if is_ephemeral_id(ghost_id) {
        VaultState::Ephemeral
    } else if vault_ok {
        VaultState::Unlocked
    } else {
        VaultState::Locked
    }
}

impl IdentityState {
    /// Records a newly created or restored identity as the live one, with its
    /// vault loaded.
    pub fn adopt(&mut self, ghost_id: String)
        ensures
            final(self).ghost_id@ == ghost_id@,
            final(self).vault_ok,
    {
        self.ghost_id = ghost_id;
        self.vault_ok = true;
    }

    /// The identity recorded at boot: the vault is loaded exactly when it was unlocked.
    pub fn at_boot(ghost_id: String, vault_state: &BootVaultState) -> (r: Self)
        ensures
            r.ghost_id@ == ghost_id@,
            r.vault_ok == (vault_state is Unlocked),
    {
        let vault_ok = match vault_state {
            BootVaultState::Unlocked(_) => true,
            BootVaultState::Ephemeral => false,
        };
        IdentityState { ghost_id, vault_ok }
    }

    /// The status snapshot for this identity after `uptime_secs` seconds.
    pub fn status(&self, uptime_secs: u64) -> (r: DaemonStatus)
        ensures
            r.ghost_id@ == self.ghost_id@,
            r.vault_state == vault_state_of(self.ghost_id@, self.vault_ok),
            r.peer_count == 0,
            r.active_ghosts == 0,
            r.uptime_secs == uptime_secs,
    {
        let vault_state = if starts_with(self.ghost_id.as_str(), "ephemeral") {
            VaultState::Ephemeral
        } else if self.vault_ok {
            VaultState::Unlocked
        } else {
            VaultState::Locked
        };
        DaemonStatus { ghost_id: self.ghost_id.clone(), vault_state, peer_count: 0, active_ghosts: 0, uptime_secs }
    }
}

/// Whether a peer on the IPC socket may issue commands: the daemon's own
/// user or root.
pub fn peer_allowed(peer_uid: u32, own_uid: u32) -> (r: bool)
    ensures
        r == (peer_uid == own_uid || peer_uid == 0),
{
    peer_uid == own_uid || peer_uid == 0
}

/// The answer to a command that needs no outside work, or `None` for the
/// commands that do (identity, DHT and network commands).
pub fn local_response(cmd: &GhostCommand, identity: &IdentityState, uptime_secs: u64) -> (r: Option<GhostResponse>)
    ensures
        match *cmd {
            GhostCommand::Ping => r matches Some(GhostResponse::Ack(m)) && m@ == "TSC_PULSE_OK"@,
            GhostCommand::Status => r matches Some(GhostResponse::Status(s)) && s.ghost_id@ == identity.ghost_id@
                && s.vault_state == vault_state_of(identity.ghost_id@, identity.vault_ok) && s.peer_count == 0
                && s.active_ghosts == 0 && s.uptime_secs == uptime_secs,
            GhostCommand::SpawnGhost { image_hash, .. } => r matches Some(GhostResponse::Error(m)) && m@
                == "RUNTIME:NOT_IMPL: SpawnGhost("@ + image_hash@ + ") — Phase 3 pending"@,
            GhostCommand::ListGhosts => r matches Some(GhostResponse::GhostList(gs)) && gs@.len() == 0,
            GhostCommand::StopGhost { ghost_id } => r matches Some(GhostResponse::Error(m)) && m@
                == "RUNTIME:NOT_IMPL: StopGhost("@ + ghost_id@ + ") — Phase 3 pending"@,
            _ => r is None,
        },
{
    match cmd {
        GhostCommand::Ping => Some(GhostResponse::Ack(String::from_str("TSC_PULSE_OK"))),
        GhostCommand::Status => Some(GhostResponse::Status(identity.status(uptime_secs))),
        GhostCommand::SpawnGhost { image_hash, .. } => {
            let mut m = String::from_str("RUNTIME:NOT_IMPL: SpawnGhost(");
            m.append(image_hash.as_str());
            m.append(") — Phase 3 pending");
            Some(GhostResponse::Error(m))
        },
        GhostCommand::ListGhosts => Some(GhostResponse::GhostList(Vec::new())),
        GhostCommand::StopGhost { ghost_id } => {
            let mut m = String::from_str("RUNTIME:NOT_IMPL: StopGhost(");
            m.append(ghost_id.as_str());
            m.append(") — Phase 3 pending");
            Some(GhostResponse::Error(m))
        },
        _ => None,
    }
}

fn error_text(prefix: &str, detail: &str) -> (r: GhostResponse)
    ensures
        r matches GhostResponse::Error(m) && m@ == prefix@ + detail@,
{
    let mut m = String::from_str(prefix);
    m.append(detail);
    GhostResponse::Error(m)
}

/// The answer to `Resolve` once the DHT lookup gave `addr` (its text), or nothing.
pub fn resolve_response(ghost_id: String, addr: Option<String>) -> (r: GhostResponse)
    ensures
        match addr {
            Some(a) => r matches GhostResponse::Resolved { ghost_id: g, addr: x } && g@ == ghost_id@ && x@ == a@,
            None => r matches GhostResponse::Error(m) && m@ == "NET:NOT_FOUND: GhostID not found in DHT"@,
        },
{
    match addr {
        Some(a) => GhostResponse::Resolved { ghost_id, addr: a },
        None => GhostResponse::Error(String::from_str("NET:NOT_FOUND: GhostID not found in DHT")),
    }
}

/// The answer to `Connect` once the DHT lookup gave `addr` (its text), or nothing.
pub fn connect_response(ghost_id: String, addr: Option<String>) -> (r: GhostResponse)
    ensures
        match addr {
            Some(a) => r matches GhostResponse::LinkEstablished { remote_id, addr: x } && remote_id@ == ghost_id@
                && x@ == a@,
            None => r matches GhostResponse::Error(m) && m@ == "NET:NOT_FOUND: GhostID not found or offline"@,
        },
{
    match addr {
        Some(a) => GhostResponse::LinkEstablished { remote_id: ghost_id, addr: a },
        None => GhostResponse::Error(String::from_str("NET:NOT_FOUND: GhostID not found or offline")),
    }
}

/// How an attempt to reach a peer and hand it a message ended.
#[derive(Debug)]
pub enum Delivery {
    /// The DHT did not know the GhostID.
    Unresolved,
    /// The address text is not an IP:port.
    BadAddress,
    /// The QUIC connection or the HELLO exchange failed (the error's text).
    ConnectFailed(String),
    /// Opening the stream failed (the error's text).
    StreamFailed(String),
    /// Connected to the peer with this GhostID (and the message was written, where one was sent).
    Reached { remote_id: String },
}

/// The bytes written to a peer for a message: a `Data` frame around its UTF-8 text.
pub fn data_frame(content: String) -> (r: Vec<u8>)
    ensures
        r@ == crate::gsp::frame_bytes(
            (encode_utf8(content@).len() % 0x1_0000_0000) as u32,
            crate::gsp::MsgType::Data,
            encode_utf8(content@),
        ),
{
    let bytes = crate::bytes::to_vec(content.as_str().as_bytes());
    crate::gsp::GspFrame::new(crate::gsp::MsgType::Data, bytes).to_bytes()
}

/// The answer to `SendMessage` for target `target_id` once the attempt ended in `d`.
pub fn send_message_response(target_id: String, d: Delivery) -> (r: GhostResponse)
    ensures
        match d {
            Delivery::Unresolved | Delivery::BadAddress => r matches GhostResponse::Error(m) && m@
                == "NET:NOT_FOUND: Target Ghost offline or unreachable"@,
            Delivery::ConnectFailed(e) => r matches GhostResponse::Error(m) && m@ == "NET:CONNECT: "@ + e@,
            Delivery::StreamFailed(e) => r matches GhostResponse::Error(m) && m@ == "NET:STREAM: "@ + e@,
            Delivery::Reached { .. } => r matches GhostResponse::MessageSent { target_id: t } && t@ == target_id@,
        },
{
    match d {
        Delivery::Unresolved | Delivery::BadAddress => GhostResponse::Error(
            String::from_str("NET:NOT_FOUND: Target Ghost offline or unreachable"),
        ),
        Delivery::ConnectFailed(e) => error_text("NET:CONNECT: ", e.as_str()),
        Delivery::StreamFailed(e) => error_text("NET:STREAM: ", e.as_str()),
        Delivery::Reached { .. } => GhostResponse::MessageSent { target_id },
    }
}

/// The error for an address text that is not an IP:port.
pub open spec fn bad_addr_text(addr: Seq<char>) -> Seq<char> {
    "NET:BAD_ADDR: '"@ + addr + "' is not a valid IP:port"@
}

fn bad_addr(addr: &str) -> (r: GhostResponse)
    ensures
        r matches GhostResponse::Error(m) && m@ == bad_addr_text(addr@),
{
    let mut m = String::from_str("NET:BAD_ADDR: '");
    m.append(addr);
    m.append("' is not a valid IP:port");
    GhostResponse::Error(m)
}

/// The answer to `ConnectDirect` to `addr` once the attempt ended in `d`.
pub fn connect_direct_response(addr: String, d: Delivery) -> (r: GhostResponse)
    ensures
        match d {
            Delivery::BadAddress | Delivery::Unresolved => r matches GhostResponse::Error(m) && m@ == bad_addr_text(addr@),
            Delivery::ConnectFailed(e) | Delivery::StreamFailed(e) => r matches GhostResponse::Error(m) && m@
                == "NET:CONNECT_DIRECT: "@ + e@,
            Delivery::Reached { remote_id } => r matches GhostResponse::DirectLinkEstablished { remote_id: x, addr: a }
                && x@ == remote_id@ && a@ == addr@,
        },
{
    match d {
        Delivery::BadAddress | Delivery::Unresolved => bad_addr(addr.as_str()),
        Delivery::ConnectFailed(e) | Delivery::StreamFailed(e) => error_text("NET:CONNECT_DIRECT: ", e.as_str()),
        Delivery::Reached { remote_id } => GhostResponse::DirectLinkEstablished { remote_id, addr },
    }
}

/// The characters of the first `min(16, byte length)` UTF-8 bytes of `s`.
pub open spec fn prefix16(s: Seq<char>) -> Seq<char> {
    let b = encode_utf8(s);
    decode_utf8(b.take(if b.len() < 16 { b.len() as int } else { 16 }))
}

/// The first `min(16, byte length)` bytes of `s` end on a character boundary.
pub open spec fn prefix16_ok(s: Seq<char>) -> bool {
    let b = encode_utf8(s);
    is_char_boundary(b, if b.len() < 16 { b.len() as int } else { 16 })
}

/// The first `min(16, byte length)` bytes of `s`, as a string.
pub fn prefix16_of(s: &str) -> (r: String)
    requires
        prefix16_ok(s@),
    ensures
        r@ == prefix16(s@),
{
    let n = s.as_bytes().len();
    let k: usize = if n < 16 {
        n
    } else {
        16
    };
    let (cut, _) = s.split_at(k);
    assert(cut@ == decode_utf8(cut.spec_bytes()));
    String::from_str(cut)
}

/// The answer to `SendDirect` to `addr` once the attempt ended in `d`.
pub fn send_direct_response(addr: String, d: Delivery) -> (r: GhostResponse)
    requires
        d matches Delivery::Reached { remote_id } ==> prefix16_ok(remote_id@),
    ensures
        match d {
            Delivery::BadAddress | Delivery::Unresolved => r matches GhostResponse::Error(m) && m@ == bad_addr_text(addr@),
            Delivery::ConnectFailed(e) => r matches GhostResponse::Error(m) && m@ == "NET:CONNECT_DIRECT: "@ + e@,
            Delivery::StreamFailed(e) => r matches GhostResponse::Error(m) && m@ == "NET:STREAM: "@ + e@,
            Delivery::Reached { remote_id } => r matches GhostResponse::Ack(m) && m@ == "DIRECT: Message delivered to "@
                + addr@ + " (peer: "@ + prefix16(remote_id@) + ")"@,
        },
{
    match d {
        Delivery::BadAddress | Delivery::Unresolved => bad_addr(addr.as_str()),
        Delivery::ConnectFailed(e) => error_text("NET:CONNECT_DIRECT: ", e.as_str()),
        Delivery::StreamFailed(e) => error_text("NET:STREAM: ", e.as_str()),
        Delivery::Reached { remote_id } => {
            let mut m = String::from_str("DIRECT: Message delivered to ");
            m.append(addr.as_str());
            m.append(" (peer: ");
            m.append(prefix16_of(remote_id.as_str()).as_str());
            m.append(")");
            GhostResponse::Ack(m)
        },
    }
}

// ── Identity ──────────────────────────────────────────────────────────────

/// The HKDF salt of the DHT record key, `b"tsc-dht-coord-v1"`.
pub open spec fn dht_salt() -> Seq<u8> {
    seq![116u8, 115, 99, 45, 100, 104, 116, 45, 99, 111, 111, 114, 100, 45, 118, 49]
}

/// The key that DHT coordinate records are encrypted under: HKDF-SHA256 of
/// the key material with the salt above and the GhostID's bytes as info.
pub open spec fn dht_key_spec(key_material: Seq<u8>, ghost_id: Seq<char>) -> Seq<u8> {
    hkdf_sha256_okm32(dht_salt(), key_material, encode_utf8(ghost_id))
}

/// Derives the DHT record key (never the vault key material itself).
pub fn derive_dht_key(key_material: &[u8], ghost_id: &str) -> (r: Result<[u8; 32], String>)
    ensures
        r matches Ok(k) && k@ == dht_key_spec(key_material@, ghost_id@),
{
    let salt: [u8; 16] = [116u8, 115, 99, 45, 100, 104, 116, 45, 99, 111, 111, 114, 100, 45, 118, 49];
    assert(salt@ =~= dht_salt());
    match hkdf_sha256_32(&salt, key_material, ghost_id.as_bytes()) {
        Ok(k) => Ok(k),
        Err(()) => Err(String::from_str("HKDF expand failed")),
    }
}

/// The identity the daemon boots with.
#[derive(Debug)]
pub struct BootIdentity {
    /// The GhostID (persistent, or `"ephemeral:<short>"`).
    pub ghost_id: String,
    /// The DHT record key (all zero for an ephemeral identity).
    pub dht_key: [u8; 32],
    /// Whether the vault was unlocked, with its key material.
    pub vault_state: BootVaultState,
    /// The inception event sent in GSP HELLO frames (`None` when ephemeral).
    pub inception: Option<InceptionEvent>,
    /// Why the stored event log was set aside, when it was.
    pub log_warning: Option<String>,
}

/// The UTF-8 bytes of `"ephemeral-commitment"`.
pub open spec fn ephemeral_commitment_input() -> Seq<u8> {
    seq![101u8, 112, 104, 101, 109, 101, 114, 97, 108, 45, 99, 111, 109, 109, 105, 116, 109, 101, 110, 116]
}

/// `b` is the session-only identity for the secret key `secret`: its GhostID
/// is `"ephemeral:"` followed by the first 16 hex digits of the digest of the
/// inception event that `secret` makes with the commitment to
/// `BLAKE3("ephemeral-commitment")`; its DHT key is all zero; its vault state
/// is ephemeral; it carries no inception event and no log warning.
pub open spec fn ephemeral_made(b: BootIdentity, secret: Seq<u8>) -> bool {
    &&& exists|e: InceptionEvent| #[trigger] ixn_made_by(e, secret, blake3_digest(ephemeral_commitment_input()))
        && b.ghost_id@ == "ephemeral:"@ + hex_chars(ixn_digest(e)).take(16)
    &&& b.dht_key@ == seq![0u8; 32]
    &&& b.vault_state is Ephemeral
    &&& b.inception is None
    &&& b.log_warning is None
}

/// The session-only identity for the secret key `secret`: an inception event
/// committing to `BLAKE3("ephemeral-commitment")`, and the GhostID
/// `"ephemeral:"` followed by the first 16 hex digits of its digest. Fails
/// only if that commitment is all zero.
pub fn ephemeral_identity(secret: [u8; 32]) -> (r: Result<BootIdentity, CryptoError>)
    ensures
        r is Err <==> all_zero(blake3_digest(ephemeral_commitment_input())),
        r matches Ok(b) ==> ephemeral_made(b, secret@),
{
    let sk = SigningKey::from_bytes(&secret);
    let input: [u8; 20] = [101u8, 112, 104, 101, 109, 101, 114, 97, 108, 45, 99, 111, 109, 109, 105, 116, 109, 101, 110, 116];
    assert(input@ =~= ephemeral_commitment_input());
    let cmt = blake3_hash(&input);
    let ixn = match InceptionEvent::new(&sk, cmt) {
        Ok(e) => e,
        Err(e) => return Err(e),
    };
    let digest = match ixn.calculate_digest() {
        Ok(d) => d,
        Err(e) => return Err(e),
    };
    let hex = hex_encode(&digest);
    proof {
        lemma_hex_chars_bytes(digest@);
        let cb = hex_bytes(digest@);
        assert(cb.len() == 64);
        assert(valid_utf8(cb)) by {
            assert(valid_utf8(encode_utf8(hex_chars(digest@))));
        }
        assert(is_char_boundary(cb, 16)) by {
            assert(cb[16] < 128);
            assert(is_leading_byte_width_1(cb[16]));
        }
    }
    let (head, _) = hex.as_str().split_at(16);
    let mut ghost_id = String::from_str("ephemeral:");
    ghost_id.append(head);
    proof {
        assert(head@ == decode_utf8(head.spec_bytes()));
        crate::text::lemma_ascii_encoding(hex_bytes(digest@).take(16));
        assert(crate::text::ascii_chars(hex_bytes(digest@).take(16)) =~= hex_chars(digest@).take(16));
    }
    let b = BootIdentity {
        ghost_id,
        dht_key: [0u8; 32],
        vault_state: BootVaultState::Ephemeral,
        inception: None,
        log_warning: None,
    };
    proof {
        assert(ixn_made_by(ixn, secret@, blake3_digest(ephemeral_commitment_input())));
        assert(b.ghost_id@ == "ephemeral:"@ + hex_chars(ixn_digest(ixn)).take(16));
        assert(b.dht_key@ =~= seq![0u8; 32]);
    }
    Ok(b)
}

/// A session-only identity under a fresh random 32-byte secret key (see
/// [`ephemeral_identity`]): whatever secret is drawn, the result is the
/// ephemeral identity of that secret.
pub fn ephemeral_boot() -> (r: Result<BootIdentity, CryptoError>)
    ensures
        r is Err <==> all_zero(blake3_digest(ephemeral_commitment_input())),
        r matches Ok(b) ==> exists|secret: Seq<u8>| secret.len() == 32 && #[trigger] ephemeral_made(b, secret),
{
    let bytes = os_random_bytes(32);
    let secret = to_array32(bytes.as_slice());
    ephemeral_identity(secret)
}

/// What creating a new identity produced: the mnemonic words to show, the
/// identity, and the vault file to write.
pub struct InitPlan {
    /// The 24 words of the new mnemonic.
    pub words: Vec<String>,
    /// The identity derived from the mnemonic's seed.
    pub persona: Persona,
    /// The sealed vault holding the words.
    pub vault_file: Vec<u8>,
}

/// Sealing these words under this key can fail for some salt and nonce.
pub open spec fn seal_can_fail(words: Seq<Seq<char>>, key_material: Seq<u8>, hw_uuid: Seq<char>) -> bool {
    exists|salt: Seq<u8>, nonce: Seq<u8>|
        salt.len() == 16 && nonce.len() == 12 && #[trigger] crate::vault::seal_spec(words, key_material, hw_uuid, salt, nonce) is Err
}

/// The identity for the mnemonic `phrase` with seed `seed`: its persona and
/// the vault sealing its words with the key at index 0. An error carries
/// the failing operation's message.
pub fn init_identity(phrase: &str, seed: &[u8], hw_uuid: &str) -> (r: Result<InitPlan, String>)
    ensures
        all_zero(commitment_at(seed@, 1)) ==> (r matches Err(m) && "CRYPTO:KEY_DERIVATION: "@.is_prefix_of(m@)),
        r is Err && !all_zero(commitment_at(seed@, 1)) ==> seal_can_fail(split_ws(phrase@), key_at(seed@, 0), hw_uuid@),
        !all_zero(commitment_at(seed@, 1)) && seal_fits(split_ws(phrase@), 32, hw_uuid@) ==> r is Ok,
        r matches Ok(p) ==> {
            &&& views(p.words@) == split_ws(phrase@)
            &&& seed_signs_soundly(seed@) ==> persona_of_seed(p.persona, seed@)
            &&& p.persona.active_key.secret@ == key_at(seed@, 0)
            &&& p.persona.rotation == 0
            &&& p.persona.ghost_id@ == crate::persona::ghost_id_of_seed(seed@)
            &&& sealed_by(p.vault_file@, split_ws(phrase@), key_at(seed@, 0), hw_uuid@)
            &&& vault_plaintext(split_ws(phrase@)).len() + 16 < 0x1_0000_0000 ==> unlock_spec(
                key_at(seed@, 0),
                hw_uuid@,
                p.vault_file@,
            ) == Ok::<Seq<Seq<char>>, CryptoErrorKind>(split_ws(phrase@))
        },
{
    let words = split_whitespace(phrase);
    proof {
        crate::text::lemma_split_words(phrase@);
        assert forall|i: int| 0 <= i < words@.len() implies crate::text::is_word(#[trigger] words@[i]@) by {
            assert(views(words@)[i] == words@[i]@);
        }
    }
    let persona = match Persona::from_seed(seed) {
        Ok(p) => p,
        Err(e) => {
            proof {
                reveal_strlit("CRYPTO:KEY_DERIVATION: ");
            }
            return Err(e.message());
        },
    };
    let k1 = match derive_active_key(seed) {
        Ok(k) => k,
        Err(e) => return Err(e.message()),
    };
    let vault_file = match lock_vault(words.as_slice(), &k1.secret, hw_uuid) {
        Ok(v) => v,
        Err(e) => return Err(e.message()),
    };
    Ok(InitPlan { words, persona, vault_file })
}

/// `p` is the new identity of the mnemonic `phrase`: its words, the persona
/// of its seed at rotation 0, and the vault sealing the words with the key at
/// index 0.
pub open spec fn init_made(p: InitPlan, phrase: Seq<char>, hw_uuid: Seq<char>) -> bool {
    let seed = bip39_seed(phrase);
    &&& views(p.words@) == split_ws(phrase)
    &&& seed_signs_soundly(seed) ==> persona_of_seed(p.persona, seed)
    &&& p.persona.active_key.secret@ == key_at(seed, 0)
    &&& p.persona.rotation == 0
    &&& p.persona.ghost_id@ == crate::persona::ghost_id_of_seed(seed)
    &&& sealed_by(p.vault_file@, split_ws(phrase), key_at(seed, 0), hw_uuid)
    &&& vault_plaintext(split_ws(phrase)).len() + 16 < 0x1_0000_0000 ==> unlock_spec(key_at(seed, 0), hw_uuid, p.vault_file@)
        == Ok::<Seq<Seq<char>>, CryptoErrorKind>(split_ws(phrase))
}

/// Creating an identity and then asking for the status: once the identity
/// that init made is adopted (its GhostID recorded with the vault loaded), the
/// status reports the seed's GhostID with the vault unlocked, and the vault
/// written unlocks to the mnemonic's words under the key at index 0.
pub proof fn lemma_init_then_status(p: InitPlan, phrase: Seq<char>, hw_uuid: Seq<char>, s: IdentityState)
    requires
        init_made(p, phrase, hw_uuid),
        s.ghost_id@ == p.persona.ghost_id@,
        s.vault_ok,
    ensures
        s.ghost_id@ == crate::persona::ghost_id_of_seed(bip39_seed(phrase)),
        vault_state_of(s.ghost_id@, s.vault_ok) == VaultState::Unlocked,
        vault_plaintext(split_ws(phrase)).len() + 16 < 0x1_0000_0000 ==> unlock_spec(
            key_at(bip39_seed(phrase), 0),
            hw_uuid,
            p.vault_file@,
        ) == Ok::<Seq<Seq<char>>, CryptoErrorKind>(split_ws(phrase)),
{
    lemma_hex_id_not_ephemeral(crate::persona::inception_digest_of_seed(bip39_seed(phrase)));
}

/// A hexadecimal GhostID never begins with `"ephemeral"`.
proof fn lemma_hex_id_not_ephemeral(d: Seq<u8>)
    ensures
        !is_ephemeral_id(hex_chars(d)),
{
    lemma_hex_chars_bytes(d);
    reveal_strlit("ephemeral");
    let b = seq![101u8, 112, 104, 101, 109, 101, 114, 97, 108];
    assert("ephemeral"@ =~= crate::text::ascii_chars(b));
    crate::text::lemma_ascii_encoding(b);
    let e = encode_utf8("ephemeral"@);
    assert(e == b);
    let h = hex_bytes(d);
    if e.is_prefix_of(h) {
        assert(h.len() >= 9);
        assert(d.len() > 0);
        let x = d[0];
        assert(x & 15 < 16) by (bit_vector);
        assert(h[1] == crate::encoding::hex_digit(x & 15));
        assert(h.subrange(0, 9)[1] == h[1]);
        assert(false);
    }
}

/// Creating the identity of `phrase` fails with the message `m`: a key
/// derivation error when its seed's pre-rotation commitment is all zero,
/// otherwise a sealing error that some salt and nonce give, which only
/// happens beyond the primitives' size limits.
pub open spec fn init_failure(phrase: Seq<char>, hw_uuid: Seq<char>, m: Seq<char>) -> bool {
    let seed = bip39_seed(phrase);
    if all_zero(commitment_at(seed, 1)) {
        "CRYPTO:KEY_DERIVATION: "@.is_prefix_of(m)
    } else {
        !seal_fits(split_ws(phrase), 32, hw_uuid) && seal_can_fail(split_ws(phrase), key_at(seed, 0), hw_uuid)
    }
}

/// A new identity from fresh BIP-39 entropy (see [`init_identity`]): the
/// identity of a fresh valid 24-word mnemonic, or the error that mnemonic gives.
pub fn plan_init(hw_uuid: &str) -> (r: Result<InitPlan, String>)
    ensures
        r matches Ok(p) ==> p.words@.len() == 24 && exists|phrase: Seq<char>|
            bip39_phrase_valid(phrase) && split_ws(phrase).len() == 24 && #[trigger] init_made(p, phrase, hw_uuid@),
        r matches Err(m) ==> exists|phrase: Seq<char>|
            bip39_phrase_valid(phrase) && split_ws(phrase).len() == 24 && #[trigger] init_failure(phrase, hw_uuid@, m@),
{
    let (phrase, seed) = generate_sovereign_entropy();
    let r = init_identity(phrase.as_str(), seed.as_slice(), hw_uuid);
    proof {
        match &r {
            Ok(p) => {
                assert(init_made(*p, phrase@, hw_uuid@));
            },
            Err(m) => {
                assert(init_failure(phrase@, hw_uuid@, m@));
            },
        }
    }
    r
}

/// What restoring an identity produced: the vault file to write and, when
/// the seed yields one, the identity to switch to.
pub struct RecoverPlan {
    /// The sealed vault holding the mnemonic's words.
    pub vault_file: Vec<u8>,
    /// The restored identity.
    pub persona: Option<Persona>,
}

/// Restores the identity of `mnemonic`: the vault sealing its words with the
/// key at index 0, and its persona. An error carries the failing operation's message.
pub fn recover_identity(mnemonic: &str, hw_uuid: &str) -> (r: Result<RecoverPlan, String>)
    ensures
        !bip39_phrase_valid(mnemonic@) ==> (r matches Err(m) && "CRYPTO:INVALID_MNEMONIC: "@.is_prefix_of(m@)),
        r is Err && bip39_phrase_valid(mnemonic@) ==> seal_can_fail(
            split_ws(mnemonic@),
            key_at(bip39_seed(mnemonic@), 0),
            hw_uuid@,
        ),
        bip39_phrase_valid(mnemonic@) && seal_fits(split_ws(mnemonic@), 32, hw_uuid@) ==> r is Ok,
        r matches Ok(p) ==> {
            let seed = bip39_seed(mnemonic@);
            &&& bip39_phrase_valid(mnemonic@)
            &&& sealed_by(p.vault_file@, split_ws(mnemonic@), key_at(seed, 0), hw_uuid@)
            &&& (p.persona is Some <==> !all_zero(commitment_at(seed, 1)))
            &&& (p.persona matches Some(x) ==> (seed_signs_soundly(seed) ==> persona_of_seed(x, seed))
                && x.active_key.secret@ == key_at(seed, 0) && x.rotation == 0
                && x.ghost_id@ == crate::persona::ghost_id_of_seed(seed))
        },
{
    let seed = match restore_from_phrase(mnemonic) {
        Ok(s) => s,
        Err(e) => {
            proof {
                reveal_strlit("CRYPTO:INVALID_MNEMONIC: ");
            }
            return Err(e.message());
        },
    };
    let k1 = match derive_active_key(seed.as_slice()) {
        Ok(k) => k,
        Err(e) => return Err(e.message()),
    };
    let words = split_whitespace(mnemonic);
    let vault_file = match lock_vault(words.as_slice(), &k1.secret, hw_uuid) {
        Ok(v) => v,
        Err(e) => return Err(e.message()),
    };
    let persona = match Persona::from_seed(seed.as_slice()) {
        Ok(p) => Some(p),
        Err(_) => None,
    };
    Ok(RecoverPlan { vault_file, persona })
}

/// The answer once a recovered vault has been written.
pub fn recovered_response() -> (r: GhostResponse)
    ensures
        r matches GhostResponse::Ack(m) && m@ == "IDENTITY:RECOVERED: Vault written and identity reloaded."@,
{
    GhostResponse::Ack(String::from_str("IDENTITY:RECOVERED: Vault written and identity reloaded."))
}

/// The rotation count of a log with `len` events, as the daemon computes it:
/// the length taken as a `u32` (modulo 2^32), minus one, floored at zero.
pub open spec fn rotation_count(len: nat) -> u32 {
    if len % 0x1_0000_0000 == 0 {
        0
    } else {
        (len % 0x1_0000_0000 - 1) as u32
    }
}

/// What a key rotation produced: the extended event log, the mnemonic
/// words and the key material to seal them under again, and the new public key.
pub struct RotationPlan {
    /// The event log with the new rotation event appended.
    pub log: Vec<KeyEvent>,
    /// The mnemonic words, to seal again.
    pub words: Vec<String>,
    /// The vault's key material: the secret bytes of the key at index 0,
    /// the key the vault is unlocked with at boot.
    pub key_material: [u8; 32],
    /// The new public key, hex-encoded.
    pub new_public_key: String,
    /// The rotation count after this rotation.
    pub rotation: u32,
}

/// Plans a key rotation for the identity `ghost_id` from `mnemonic` and the
/// stored event log (empty when none could be loaded, in which case the
/// seed's inception event stands in for it). A stored log must verify first:
/// one that does not is refused with the verifier's error. The rotation count is taken
/// from the log's length; the new key is the one at the next index, the
/// commitment is to the key after it, and the event is signed by the key at
/// the current index and the new one. The vault is to be sealed again under
/// the key at index 0, which boot unlocks it with. An error carries
/// `"IDENTITY:ROTATE: "` and the failing operation's message.
#[verifier::rlimit(100)]
#[verifier::spinoff_prover]
pub fn plan_rotation(mnemonic: &str, stored: Vec<KeyEvent>, ghost_id: &str) -> (r: Result<RotationPlan, String>)
    requires
        stored@.len() > 0 ==> stored@.len() % 0x1_0000_0000 != 0xFFFF_FFFF,
        stored@.len() > 0 ==> stored@.last().spec_seq() < u64::MAX,
    ensures
        ({
            let m = trim_ws(mnemonic@);
            let seed = bip39_seed(m);
            let base_ok = if stored@.len() > 0 {
                log_total(stored@) && verify_log_spec(stored@) is Ok
            } else {
                !all_zero(commitment_at(seed, 1))
            };
            let n = rotation_count(if stored@.len() > 0 { stored@.len() } else { 1 });
            &&& !bip39_phrase_valid(m) ==> (r matches Err(e) && "IDENTITY:ROTATE: CRYPTO:INVALID_MNEMONIC: "@.is_prefix_of(e@))
            &&& bip39_phrase_valid(m) && stored@.len() == 0 && !base_ok ==> (r matches Err(e)
                && "IDENTITY:ROTATE: CRYPTO:KEY_DERIVATION: "@.is_prefix_of(e@))
            &&& bip39_phrase_valid(m) && stored@.len() > 0 && !log_total(stored@) ==> (r matches Err(e)
                && e@ == "IDENTITY:ROTATE: CRYPTO:INVALID_EVENT_LOG: An event of the stored log has no key"@)
            &&& bip39_phrase_valid(m) && stored@.len() > 0 && log_total(stored@) ==> (
                verify_log_spec(stored@) matches Err(k) ==> (r matches Err(e) && exists|ce: CryptoError|
                    #[trigger] ce.kind() == k && e@ == "IDENTITY:ROTATE: "@ + ce.prefix() + ce.detail()))
            &&& bip39_phrase_valid(m) && base_ok && is_ephemeral_id(ghost_id@) ==> (r matches Err(e)
                && e@ == "IDENTITY:ROTATE: Cannot rotate an ephemeral identity. Run 'init' first."@)
            &&& bip39_phrase_valid(m) && base_ok && !is_ephemeral_id(ghost_id@) && all_zero(
                commitment_at(seed, (n + 2) as u32),
            ) ==> (r matches Err(e) && "IDENTITY:ROTATE: CRYPTO:KEY_DERIVATION: "@.is_prefix_of(e@))
            &&& r is Ok <==> bip39_phrase_valid(m) && base_ok && !is_ephemeral_id(ghost_id@) && !all_zero(
                commitment_at(seed, (n + 2) as u32),
            )
            &&& r matches Ok(p) ==> {
                let base = p.log@.drop_last();
                &&& p.rotation == n + 1
                &&& stored@.len() > 0 ==> base == stored@
                &&& stored@.len() == 0 ==> base.len() == 1 && (base[0] matches KeyEvent::Inception(e0)
                    && ixn_made_by(e0, key_at(seed, 0), commitment_at(seed, 1)))
                &&& stored@.len() == 0 && seed_signs_soundly(seed) ==> log_at(
                    base,
                    seed,
                    0,
                    crate::persona::ghost_id_of_seed(seed),
                )
                &&& p.log@.last() matches KeyEvent::Rotation(e) && rot_made_by(
                    e,
                    key_at(seed, n),
                    key_at(seed, p.rotation),
                    commitment_at(seed, (p.rotation + 1) as u32),
                    base.last().spec_digest(),
                    (base.last().spec_seq() + 1) as u64,
                    ghost_id@,
                    rotation_path(p.rotation),
                )
                &&& views(p.words@) == split_ws(m)
                &&& p.key_material@ == key_at(seed, 0)
                &&& p.new_public_key@ == hex_chars(ed25519_public(key_at(seed, p.rotation)))
                &&& log_at(base, seed, n, ghost_id@) && seed_signs_soundly(seed) ==> log_at(p.log@, seed, p.rotation, ghost_id@)
                    && verify_log_spec(p.log@) == Ok::<Seq<u8>, CryptoErrorKind>(
                    ed25519_public(key_at(seed, p.rotation)),
                )
            }
        }),
{
    let m = trim(mnemonic);
    let seed = match restore_from_phrase(m.as_str()) {
        Ok(s) => s,
        Err(e) => {
            proof {
                reveal_strlit("IDENTITY:ROTATE: CRYPTO:INVALID_MNEMONIC: ");
                reveal_strlit("IDENTITY:ROTATE: ");
                reveal_strlit("CRYPTO:INVALID_MNEMONIC: ");
            }
            return Err(rotate_text(e.message().as_str()));
        },
    };
    let ghost seed_v = seed@;
    let mut log: Vec<KeyEvent> = if stored.len() > 0 {
        match check_event_log(stored.as_slice()) {
            None => {
                return Err(String::from_str(
                    "IDENTITY:ROTATE: CRYPTO:INVALID_EVENT_LOG: An event of the stored log has no key",
                ));
            },
            Some(Err(e)) => return Err(rotate_text(e.message().as_str())),
            Some(Ok(_)) => {},
        }
        stored
    } else {
        match Persona::from_seed(seed.as_slice()) {
            Ok(p) => {
                proof {
                    crate::persona::lemma_seed_inception_digest(
                        p.event_log@[0]->Inception_0,
                        seed_v,
                    );
                }
                p.event_log
            },
            Err(e) => {
                proof {
                    reveal_strlit("IDENTITY:ROTATE: CRYPTO:KEY_DERIVATION: ");
                    reveal_strlit("IDENTITY:ROTATE: ");
                    reveal_strlit("CRYPTO:KEY_DERIVATION: ");
                }
                return Err(rotate_text(e.message().as_str()));
            },
        }
    };
    let ghost base = log@;
    let len = log.len();
    let l32: u32 = (len as u64 % 0x1_0000_0000) as u32;
    let rotation: u32 = if l32 == 0 {
        0
    } else {
        l32 - 1
    };
    let next_rotation = rotation + 1;
    let new_active = match derive_key_at_index(seed.as_slice(), next_rotation) {
        Ok(k) => k,
        Err(e) => return Err(rotate_text(e.message().as_str())),
    };
    let new_commitment = match commitment_at_index(seed.as_slice(), next_rotation + 1) {
        Ok(c) => c,
        Err(e) => return Err(rotate_text(e.message().as_str())),
    };
    let prev_event = &log[len - 1];
    let prev_digest = match prev_event.digest() {
        Ok(d) => d,
        Err(e) => return Err(rotate_text(e.message().as_str())),
    };
    let seq = prev_event.seq() + 1;
    if starts_with(ghost_id, "ephemeral") {
        return Err(String::from_str("IDENTITY:ROTATE: Cannot rotate an ephemeral identity. Run 'init' first."));
    }
    let current_active = match derive_key_at_index(seed.as_slice(), rotation) {
        Ok(k) => k,
        Err(e) => return Err(rotate_text(e.message().as_str())),
    };
    let mut deriv_path = String::from_str("m/44'/7777'/0'/0'/");
    deriv_path.append(decimal_string(next_rotation as u64).as_str());
    deriv_path.append("'");
    let rot = match RotationEvent::new(
        &current_active,
        &new_active,
        new_commitment,
        prev_digest,
        seq,
        ghost_id,
        deriv_path.as_str(),
    ) {
        Ok(r) => r,
        Err(e) => {
            proof {
                reveal_strlit("IDENTITY:ROTATE: CRYPTO:KEY_DERIVATION: ");
                reveal_strlit("IDENTITY:ROTATE: ");
                reveal_strlit("CRYPTO:KEY_DERIVATION: ");
            }
            return Err(rotate_text(e.message().as_str()));
        },
    };
    let ghost rot_v = rot;
    log.push(KeyEvent::Rotation(rot));
    proof {
        assert(log@.drop_last() =~= base);
        if log_at(base, seed_v, rotation, ghost_id@) && seed_signs_soundly(seed_v) {
            assert(crate::keri::signature_sound(key_at(seed_v, rotation), crate::keri::rot_signed_bytes(rot_v)));
            assert(crate::keri::signature_sound(key_at(seed_v, next_rotation), crate::keri::rot_signed_bytes(rot_v)));
            lemma_rotation_extends_log(base, rot_v, seed_v, rotation, ghost_id@, deriv_path@);
        }
    }
    let words = split_whitespace(m.as_str());
    let new_public_key = hex_encode(&new_active.verifying_key().bytes);
    let vault_key = match derive_active_key(seed.as_slice()) {
        Ok(k) => k,
        Err(e) => return Err(rotate_text(e.message().as_str())),
    };
    Ok(RotationPlan { log, words, key_material: vault_key.secret, new_public_key, rotation: next_rotation })
}

fn rotate_text(detail: &str) -> (r: String)
    ensures
        r@ == "IDENTITY:ROTATE: "@ + detail@,
{
    let mut m = String::from_str("IDENTITY:ROTATE: ");
    m.append(detail);
    m
}

/// The answer when the rotation event could not be appended to the stored log.
pub fn iel_write_failed(e: &CryptoError) -> (r: GhostResponse)
    ensures
        r matches GhostResponse::Error(m) && m@ == "IDENTITY:ROTATE: IEL write failed: "@ + e.prefix() + e.detail(),
{
    let mut m = String::from_str("IDENTITY:ROTATE: IEL write failed: ");
    m.append(e.message().as_str());
    GhostResponse::Error(m)
}

/// The answer when the vault could not be sealed or written again after a rotation.
pub fn vault_rewrite_failed(e: &CryptoError) -> (r: GhostResponse)
    ensures
        r matches GhostResponse::Error(m) && m@ == "IDENTITY:ROTATE: vault rewrite failed: "@ + e.prefix() + e.detail(),
{
    let mut m = String::from_str("IDENTITY:ROTATE: vault rewrite failed: ");
    m.append(e.message().as_str());
    GhostResponse::Error(m)
}

/// A log that verifies starts with its inception event.
pub proof fn lemma_valid_log_starts_with_inception(log: Seq<KeyEvent>)
    requires
        log_state(log) is Ok,
    ensures
        log.len() >= 1,
        log[0] is Inception,
    decreases log.len(),
{
    if log.len() > 1 {
        lemma_valid_log_starts_with_inception(log.drop_last());
        assert(log.drop_last()[0] == log[0]);
    }
}

fn copy_strings(v: &Vec<String>) -> (r: Vec<String>)
    ensures
        views(r@) == views(v@),
{
    let mut r: Vec<String> = Vec::new();
    let mut i: usize = 0;
    while i < v.len()
        invariant
            i <= v@.len(),
            views(r@) == views(v@.subrange(0, i as int)),
        decreases v@.len() - i,
    {
        r.push(v[i].clone());
        assert(views(v@.subrange(0, i + 1)) =~= views(v@.subrange(0, i as int)).push(v@[i as int]@));
        assert(views(r@) =~= views(v@.subrange(0, i as int)).push(v@[i as int]@));
        i = i + 1;
    }
    assert(v@.subrange(0, i as int) =~= v@);
    r
}

/// A copy of an inception event with the same field values.
fn copy_inception(e: &InceptionEvent) -> (r: InceptionEvent)
    ensures
        ixn_fields(r) == ixn_fields(*e),
{
    InceptionEvent {
        v: e.v.clone(),
        t: e.t.clone(),
        d: e.d.clone(),
        i: e.i.clone(),
        s: e.s,
        kt: e.kt,
        k: copy_strings(&e.k),
        n: e.n.clone(),
        di: e.di.clone(),
        sig: e.sig.clone(),
    }
}

/// The prefix of the warning given when a stored log does not verify.
pub open spec fn log_warning_prefix() -> Seq<char> {
    "[WARN] IEL verification failed ("@
}

/// `r` is what booting from `mnemonic` gives with the vault bytes (or read
/// error) `vault_file` and the stored event log `iel`.
pub open spec fn booted(
    mnemonic: Seq<char>,
    hw_uuid: Seq<char>,
    vault_file: Result<Vec<u8>, String>,
    iel: Seq<KeyEvent>,
    r: Result<BootIdentity, String>,
) -> bool {
    let seed = bip39_seed(mnemonic);
    let km = key_at(seed, 0);
    &&& !bip39_phrase_valid(mnemonic) ==> (r matches Err(m) && "CRYPTO:INVALID_MNEMONIC: "@.is_prefix_of(m@))
    &&& bip39_phrase_valid(mnemonic) ==> match vault_file {
        Err(msg) => r matches Err(m) && m@ == "CRYPTO:IO: "@ + msg@,
        Ok(data) => match unlock_spec(km, hw_uuid, data@) {
            Err(k) => r matches Err(m) && exists|ce: CryptoError|
                #[trigger] ce.kind() == k && m@ == ce.prefix() + ce.detail()
                && crate::vault::unlock_error_detail(km, hw_uuid, data@, ce.detail()),
            Ok(_) => {
                &&& r is Ok <==> !all_zero(commitment_at(seed, 1))
                &&& r matches Ok(b) ==> {
                    &&& b.ghost_id@ == crate::persona::ghost_id_of_seed(seed)
                    &&& b.dht_key@ == dht_key_spec(km, b.ghost_id@)
                    &&& (b.vault_state matches BootVaultState::Unlocked(k) && k@ == km)
                    &&& (iel.len() > 0 && log_state(iel) is Ok) ==> (b.log_warning is None && (
                    b.inception matches Some(x) && iel[0] matches KeyEvent::Inception(e0) && ixn_fields(x)
                        == ixn_fields(e0)))
                    &&& !(iel.len() > 0 && log_state(iel) is Ok) ==> (b.inception matches Some(x)
                        && ixn_made_by(x, km, commitment_at(seed, 1)))
                    &&& (iel.len() > 0 && log_state(iel) is Err) ==> (b.log_warning matches Some(w)
                        && log_warning_prefix().is_prefix_of(w@))
                    &&& iel.len() == 0 ==> b.log_warning is None
                }
            },
        },
    }
}

/// How the daemon boots, from whether a vault file exists and the mnemonic
/// it was given.
#[derive(Debug)]
pub enum BootChoice {
    /// No vault file: a session-only identity.
    NoVault,
    /// A vault but no mnemonic to unlock it: a session-only identity.
    MissingMnemonic,
    /// Unlock the vault with this mnemonic (trimmed of surrounding white space).
    Unlock(String),
}

/// Chooses the boot path: no vault gives a session-only identity; a vault
/// with a mnemonic that is blank after trimming does too; otherwise the
/// vault is unlocked with the trimmed mnemonic (and a failed unlock falls
/// back to a session-only identity).
pub fn boot_choice(vault_exists: bool, mnemonic: &str) -> (r: BootChoice)
    ensures
        !vault_exists ==> r is NoVault,
        vault_exists && trim_ws(mnemonic@).len() == 0 ==> r is MissingMnemonic,
        vault_exists && trim_ws(mnemonic@).len() > 0 ==> (r matches BootChoice::Unlock(m) && m@ == trim_ws(
            mnemonic@,
        )),
{
    if !vault_exists {
        return BootChoice::NoVault;
    }
    let m = trim(mnemonic);
    if m.as_str().is_empty() {
        BootChoice::MissingMnemonic
    } else {
        BootChoice::Unlock(m)
    }
}

/// A restart after a rotation boots the same identity: the vault that was
/// sealed again with the rotation's key material and words (as
/// `plan_rotation` gives them and `lock_vault` seals them) opens under the
/// key that boot derives from the same mnemonic, so booting gives the seed's
/// GhostID — the one it had before the rotation — with the vault unlocked.
pub proof fn lemma_restart_after_rotation(
    mnemonic: Seq<char>,
    hw_uuid: Seq<char>,
    plan: RotationPlan,
    vault: Vec<u8>,
    iel: Seq<KeyEvent>,
    r: Result<BootIdentity, String>,
)
    requires
        bip39_phrase_valid(mnemonic),
        !all_zero(commitment_at(bip39_seed(mnemonic), 1)),
        plan.key_material@ == key_at(bip39_seed(mnemonic), 0),
        views(plan.words@) == split_ws(mnemonic),
        unlock_spec(plan.key_material@, hw_uuid, vault@) == Ok::<Seq<Seq<char>>, CryptoErrorKind>(views(plan.words@)),
        booted(mnemonic, hw_uuid, Ok(vault), iel, r),
    ensures
        r matches Ok(b) && b.ghost_id@ == crate::persona::ghost_id_of_seed(bip39_seed(mnemonic))
            && b.vault_state is Unlocked,
{
}

/// Verifying the stored event log is reached (the mnemonic is valid and
/// opens the vault) and meets an empty key list where it reads a key.
pub open spec fn boot_log_unreadable(
    mnemonic: Seq<char>,
    hw_uuid: Seq<char>,
    vault_file: Result<Vec<u8>, String>,
    iel: Seq<KeyEvent>,
) -> bool {
    &&& bip39_phrase_valid(mnemonic)
    &&& vault_file matches Ok(data) && unlock_spec(key_at(bip39_seed(mnemonic), 0), hw_uuid, data@) is Ok
    &&& iel.len() > 0
    &&& !crate::keri::log_total(iel)
}

/// Boots the persistent identity from `mnemonic`: the mnemonic must open the
/// vault (`vault_file` holds its bytes, or the text of the read error); the
/// stored event log `iel` replaces the seed's inception-only log when it
/// verifies (the rotation count then follows its length); otherwise it is
/// set aside with a warning. The GhostID is always the seed's, the DHT key
/// is derived from the key material at index 0 and the GhostID, and the
/// inception event is the first event of the log kept. An error carries the
/// failing operation's message. `None` where verifying the stored log meets
/// an empty key list where it reads a key.
pub fn load_from_mnemonic(
    mnemonic: &str,
    hw_uuid: &str,
    vault_file: Result<Vec<u8>, String>,
    iel: Vec<KeyEvent>,
) -> (out: Option<Result<BootIdentity, String>>)
    ensures
        out is None <==> boot_log_unreadable(mnemonic@, hw_uuid@, vault_file, iel@),
        out matches Some(r) ==> booted(mnemonic@, hw_uuid@, vault_file, iel@, r),
{
    let seed = match restore_from_phrase(mnemonic) {
        Ok(s) => s,
        Err(e) => return Some(Err(e.message())),
    };
    let k1 = match derive_active_key(seed.as_slice()) {
        Ok(k) => k,
        Err(e) => return Some(Err(e.message())),
    };
    let km = k1.secret;
    let data = match vault_file {
        Ok(d) => d,
        Err(msg) => return Some(Err(CryptoError::Io(msg).message())),
    };
    match unlock_vault(&km, hw_uuid, data.as_slice()) {
        Ok(_) => {},
        Err(e) => return Some(Err(e.message())),
    }
    let mut log_warning: Option<String> = None;
    let persona = if iel.len() > 0 {
        match check_event_log(iel.as_slice()) {
            None => return None,
            Some(Ok(_)) => {
                let mut p = match Persona::from_seed(seed.as_slice()) {
                    Ok(p) => p,
                    Err(e) => return Some(Err(e.message())),
                };
                let l32: u32 = (iel.len() as u64 % 0x1_0000_0000) as u32;
                p.rotation = if l32 == 0 {
                    0
                } else {
                    l32 - 1
                };
                proof {
                    lemma_valid_log_starts_with_inception(iel@);
                }
                p.event_log = iel;
                p
            },
            Some(Err(e)) => {
                let mut w = String::from_str("[WARN] IEL verification failed (");
                w.append(e.message().as_str());
                w.append("); using inception only");
                log_warning = Some(w);
                match Persona::from_seed(seed.as_slice()) {
                    Ok(p) => p,
                    Err(e) => return Some(Err(e.message())),
                }
            },
        }
    } else {
        match Persona::from_seed(seed.as_slice()) {
            Ok(p) => p,
            Err(e) => return Some(Err(e.message())),
        }
    };
    let inception = match &persona.event_log[0] {
        KeyEvent::Inception(ixn) => copy_inception(ixn),
        KeyEvent::Rotation(_) => {
            assert(false);
            return None;
        },
    };
    let ghost_id = persona.ghost_id;
    let dht_key = match derive_dht_key(&km, ghost_id.as_str()) {
        Ok(k) => k,
        Err(m) => return Some(Err(m)),
    };
    Some(Ok(BootIdentity {
        ghost_id,
        dht_key,
        vault_state: BootVaultState::Unlocked(km),
        inception: Some(inception),
        log_warning,
    }))
}

} // verus!
