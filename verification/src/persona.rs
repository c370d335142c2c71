//! The runtime identity of a node: its GhostID, current signing key,
//! pre-rotation commitment, rotation counter and identifier event log.

use vstd::prelude::*;
use vstd::string::*;
use crate::bip39::{commitment_at, commitment_at_index, derive_key_at_index, key_at};
use crate::bytes::all_zero;
use crate::encoding::{hex_chars, hex_encode, lemma_hex_roundtrip};
use crate::error::{CryptoError, CryptoErrorKind};
use crate::json::decimal_string;
use crate::keri::{
    InceptionEvent, KeyEvent, LogState, RotationEvent, ixn_digest, ixn_json_of, ixn_made_by, lemma_parse_own_key, rot_made_by,
    lemma_parse_own_sig, log_state, rotation_check, verify_log_spec, signature_sound, rot_signed_bytes,
};
use crate::keys::SigningKey;
use crate::primitives::{blake3_digest, ed25519_public};
use crate::text::{ascii_chars, views};
use crate::encoding::b64_bytes;

verus! {

broadcast use vstd::utf8::group_utf8_lib;

/// The runtime identity of a node, always derived from a master seed.
///
/// `rotation` counts the rotations performed: the active key sits at
/// derivation index `rotation`, the pre-rotation key at `rotation + 1`.
pub struct Persona {
    /// Permanent GhostID (hex BLAKE3 of the inception event). Stable forever.
    pub ghost_id: String,
    /// Current active signing key (K_N).
    pub active_key: SigningKey,
    /// Pre-rotation commitment `BLAKE3(K_(N+1).public)`.
    pub next_key_commitment: [u8; 32],
    /// Number of rotations performed (0 = just after inception).
    pub rotation: u32,
    /// Ordered identifier event log. Contains public data only.
    pub event_log: Vec<KeyEvent>,
}

/// `p` is the identity that `seed` yields after `p.rotation` rotations: its
/// keys sit at the indices the counter names, its log holds the inception
/// and one event per rotation, verifies, and ends in a state that matches
/// its fields.
pub open spec fn persona_of_seed(p: Persona, seed: Seq<u8>) -> bool {
    &&& p.rotation < u32::MAX
    &&& p.active_key.secret@ == key_at(seed, p.rotation)
    &&& p.next_key_commitment@ == commitment_at(seed, (p.rotation + 1) as u32)
    &&& p.event_log@.len() == p.rotation + 1
    &&& p.event_log@.last().spec_seq() == p.event_log@.len() - 1
    &&& log_state(p.event_log@) == Ok::<LogState, CryptoErrorKind>(LogState {
        key: ed25519_public(key_at(seed, p.rotation)),
        commitment: p.next_key_commitment@,
        prev_digest: p.event_log@.last().spec_digest(),
        ghost_id: p.ghost_id@,
    })
}

/// Every signature made with a key that `seed` derives is sound (see
/// [`signature_sound`]): the premise under which the logs this module builds
/// verify.
pub open spec fn seed_signs_soundly(seed: Seq<u8>) -> bool {
    forall|i: u32, msg: Seq<u8>| #[trigger] signature_sound(key_at(seed, i), msg)
}

/// The SLIP-0010 derivation path of the active key at rotation `n`, every
/// component hardened: `m/44'/7777'/0'/0'/<n>'`.
pub open spec fn rotation_path(n: u32) -> Seq<char> {
    "m/44'/7777'/0'/0'/"@ + crate::proto::dec_chars(n as nat) + "'"@
}

/// The identity of a seed — as `Persona::from_seed` makes it and every
/// successful `Persona::rotate` keeps it, however many times — holds one
/// event per rotation after its inception, and its log verifies to its
/// current active key.
pub proof fn lemma_persona_log_verifies(p: Persona, seed: Seq<u8>)
    requires
        persona_of_seed(p, seed),
    ensures
        p.event_log@.len() == p.rotation + 1,
        verify_log_spec(p.event_log@) == Ok::<Seq<u8>, CryptoErrorKind>(ed25519_public(p.active_key.secret@)),
{
}

/// The digest of the inception event that `seed` yields: the event for the
/// public key at index 0 committing to the key at index 1.
pub open spec fn inception_digest_of_seed(seed: Seq<u8>) -> Seq<u8> {
    blake3_digest(
        ixn_json_of(
            "TSC2.0"@,
            "ixn"@,
            seq![],
            seq![],
            0,
            1,
            seq![ascii_chars(b64_bytes(ed25519_public(key_at(seed, 0)), true))],
            hex_chars(commitment_at(seed, 1)),
            "m/44'/7777'/0'/0'/0'"@,
            seq![],
        ),
    )
}

/// The GhostID that `seed` yields.
pub open spec fn ghost_id_of_seed(seed: Seq<u8>) -> Seq<char> {
    hex_chars(inception_digest_of_seed(seed))
}

/// The inception event made for a seed has the seed's digest.
pub proof fn lemma_seed_inception_digest(e: InceptionEvent, seed: Seq<u8>)
    requires
        ixn_made_by(e, key_at(seed, 0), commitment_at(seed, 1)),
    ensures
        ixn_digest(e) == inception_digest_of_seed(seed),
{
}

/// `log` is a valid log of `seed`'s identity `ghost_id` after `n` rotations:
/// it verifies to the key at index `n`, commits to the key at index `n + 1`,
/// and numbers its events from 0.
pub open spec fn log_at(log: Seq<KeyEvent>, seed: Seq<u8>, n: u32, ghost_id: Seq<char>) -> bool {
    &&& n < u32::MAX
    &&& log.len() >= 1
    &&& log.last().spec_seq() == log.len() - 1
    &&& log_state(log) == Ok::<LogState, CryptoErrorKind>(LogState {
        key: ed25519_public(key_at(seed, n)),
        commitment: commitment_at(seed, (n + 1) as u32),
        prev_digest: log.last().spec_digest(),
        ghost_id,
    })
}


/// Appending a rotation event made with the seed's keys (signed by the key
/// at index `n` and the new one at `n + 1`, committing to the key at
/// `n + 2`, chained to the log's last event) to a valid log at rotation `n`
/// gives a valid log at rotation `n + 1`, which verifies to the new key,
/// provided both signatures of the rotation event are sound.
pub proof fn lemma_rotation_extends_log(
    base: Seq<KeyEvent>,
    rot: RotationEvent,
    seed: Seq<u8>,
    n: u32,
    ghost_id: Seq<char>,
    path: Seq<char>,
)
    requires
        n + 1 < u32::MAX,
        signature_sound(key_at(seed, n), rot_signed_bytes(rot)),
        signature_sound(key_at(seed, (n + 1) as u32), rot_signed_bytes(rot)),
        log_at(base, seed, n, ghost_id),
        base.last().spec_seq() < u64::MAX,
        rot_made_by(
            rot,
            key_at(seed, n),
            key_at(seed, (n + 1) as u32),
            commitment_at(seed, (n + 2) as u32),
            base.last().spec_digest(),
            (base.last().spec_seq() + 1) as u64,
            ghost_id,
            path,
        ),
    ensures
        log_at(base.push(KeyEvent::Rotation(rot)), seed, (n + 1) as u32, ghost_id),
        verify_log_spec(base.push(KeyEvent::Rotation(rot))) == Ok::<Seq<u8>, CryptoErrorKind>(
            ed25519_public(key_at(seed, (n + 1) as u32)),
        ),
{
    let new_secret = key_at(seed, (n + 1) as u32);
    let prev_secret = key_at(seed, n);
    let msg = crate::keri::rot_signed_bytes(rot);
    lemma_parse_own_key(views(rot.k@), new_secret);
    lemma_parse_own_sig(crate::primitives::ed25519_signature(prev_secret, msg));
    lemma_parse_own_sig(crate::primitives::ed25519_signature(new_secret, msg));
    lemma_hex_roundtrip(commitment_at(seed, (n + 2) as u32));
    let st = log_state(base)->Ok_0;
    let l = base.push(KeyEvent::Rotation(rot));
    assert(l.drop_last() =~= base);
    assert(l.last() == KeyEvent::Rotation(rot));
    assert(rot.s == base.len());
    assert(crate::keri::parse_key_spec(views(rot.k@)) == Some(ed25519_public(new_secret)));
    assert(blake3_digest(ed25519_public(new_secret)) == st.commitment);
    assert(rotation_check(rot, st, (l.len() - 1) as nat) == Ok::<(), CryptoErrorKind>(())) by {
        reveal(rotation_check);
    }
    assert(log_state(l) == Ok::<LogState, CryptoErrorKind>(crate::keri::rotation_state(rot, st)));
}


impl Persona {
    /// Derives a persona from a BIP-39 master seed: the inception event for
    /// the key at index 0 with the commitment to the key at index 1.
    /// Fails (`KeyDerivation`) exactly when that commitment is all zero. The
    /// log verifies when the seed's signatures are sound.
    pub fn from_seed(master_seed: &[u8]) -> (r: Result<Self, CryptoError>)
        ensures
            r is Err <==> all_zero(commitment_at(master_seed@, 1)),
            r matches Err(e) ==> e.kind() == CryptoErrorKind::KeyDerivation,
            r matches Ok(p) ==> {
                &&& seed_signs_soundly(master_seed@) ==> persona_of_seed(p, master_seed@)
                &&& p.active_key.secret@ == key_at(master_seed@, 0)
                &&& p.next_key_commitment@ == commitment_at(master_seed@, 1)
                &&& p.rotation == 0
                &&& p.event_log@.len() == 1
                &&& p.event_log@[0] matches KeyEvent::Inception(e)
                    && p.ghost_id@ == hex_chars(ixn_digest(e))
                    && ixn_made_by(e, key_at(master_seed@, 0), commitment_at(master_seed@, 1))
                &&& p.ghost_id@ == ghost_id_of_seed(master_seed@)
                &&& seed_signs_soundly(master_seed@) ==> verify_log_spec(p.event_log@)
                    == Ok::<Seq<u8>, CryptoErrorKind>(ed25519_public(key_at(master_seed@, 0)))
            },
    {
        let active_key = match derive_key_at_index(master_seed, 0) {
            Ok(k) => k,
            Err(e) => return Err(e),
        };
        let commitment = match commitment_at_index(master_seed, 1) {
            Ok(c) => c,
            Err(e) => return Err(e),
        };
        let inception = match InceptionEvent::new(&active_key, commitment) {
            Ok(e) => e,
            Err(e) => return Err(e),
        };
        let digest = match inception.calculate_digest() {
            Ok(d) => d,
            Err(e) => return Err(e),
        };
        let ghost_id = hex_encode(&digest);
        proof {
            if seed_signs_soundly(master_seed@) {
                assert(signature_sound(key_at(master_seed@, 0), crate::keri::ixn_signed_bytes(inception)));
            }
            lemma_seed_inception_digest(inception, master_seed@);
            lemma_parse_own_key(views(inception.k@), active_key.secret@);
            lemma_hex_roundtrip(commitment@);
        }
        let mut event_log: Vec<KeyEvent> = Vec::new();
        event_log.push(KeyEvent::Inception(inception));
        let p = Persona {
            ghost_id,
            active_key,
            next_key_commitment: commitment,
            rotation: 0,
            event_log,
        };
        assert(p.event_log@.last() == p.event_log@[0]);
        Ok(p)
    }

    /// Performs one key rotation in place: derives the new active key (index
    /// `rotation + 1`) and the next pre-rotation commitment (index
    /// `rotation + 2`) from `master_seed`, appends a dual-signed rotation
    /// event recording the derivation path of the new key, and updates
    /// `active_key`, `next_key_commitment` and `rotation`. Returns the event
    /// it appended, for the caller to persist. On an error nothing changes.
    pub fn rotate(&mut self, master_seed: &[u8]) -> (r: Result<&RotationEvent, CryptoError>)
        requires
            old(self).rotation < u32::MAX - 1,
            old(self).event_log@.len() > 0 ==> old(self).event_log@.last().spec_seq() < u64::MAX,
        ensures
            r is Err <==> old(self).event_log@.len() == 0
                || all_zero(commitment_at(master_seed@, (old(self).rotation + 2) as u32)),
            r matches Err(e) ==> e.kind() == if old(self).event_log@.len() == 0 {
                CryptoErrorKind::InvalidEventLog
            } else {
                CryptoErrorKind::KeyDerivation
            },
            r is Err ==> *final(self) == *old(self),
            r is Ok ==> {
                &&& final(self).rotation == old(self).rotation + 1
                &&& final(self).ghost_id == old(self).ghost_id
                &&& final(self).event_log@.len() == old(self).event_log@.len() + 1
                &&& final(self).event_log@.drop_last() == old(self).event_log@
                &&& final(self).event_log@.last() is Rotation
                &&& final(self).event_log@.last() matches KeyEvent::Rotation(e) && rot_made_by(
                    e,
                    old(self).active_key.secret@,
                    key_at(master_seed@, final(self).rotation),
                    commitment_at(master_seed@, (final(self).rotation + 1) as u32),
                    old(self).event_log@.last().spec_digest(),
                    (old(self).event_log@.last().spec_seq() + 1) as u64,
                    old(self).ghost_id@,
                    rotation_path(final(self).rotation),
                )
                &&& final(self).active_key.secret@ == key_at(master_seed@, final(self).rotation)
                &&& final(self).next_key_commitment@ == commitment_at(
                    master_seed@,
                    (final(self).rotation + 1) as u32,
                )
            },
            r matches Ok(e) ==> final(self).event_log@.last() == KeyEvent::Rotation(*e),
            r is Ok && persona_of_seed(*old(self), master_seed@) && seed_signs_soundly(master_seed@) ==> {
                &&& persona_of_seed(*final(self), master_seed@)
                &&& verify_log_spec(final(self).event_log@) == Ok::<Seq<u8>, CryptoErrorKind>(
                    ed25519_public(key_at(master_seed@, final(self).rotation)),
                )
            },
    {
        let next_rotation = self.rotation + 1;
        let new_active = match derive_key_at_index(master_seed, next_rotation) {
            Ok(k) => k,
            Err(e) => return Err(e),
        };
        let new_prerot_commitment = match commitment_at_index(master_seed, next_rotation + 1) {
            Ok(c) => c,
            Err(e) => return Err(e),
        };
        let n = self.event_log.len();
        if n == 0 {
            return Err(CryptoError::InvalidEventLog(String::from_str("Empty event log")));
        }
        let prev_event = &self.event_log[n - 1];
        let prev_digest = match prev_event.digest() {
            Ok(d) => d,
            Err(e) => return Err(e),
        };
        let seq = prev_event.seq() + 1;
        let mut deriv_path = String::from_str("m/44'/7777'/0'/0'/");
        deriv_path.append(decimal_string(next_rotation as u64).as_str());
        deriv_path.append("'");
        let rot = match RotationEvent::new(
            &self.active_key,
            &new_active,
            new_prerot_commitment,
            prev_digest,
            seq,
            self.ghost_id.as_str(),
            deriv_path.as_str(),
        ) {
            Ok(r) => r,
            Err(e) => return Err(e),
        };
        let ghost ghost_old = *self;
        proof {
            lemma_parse_own_key(views(rot.k@), new_active.secret@);
            lemma_parse_own_sig(crate::primitives::ed25519_signature(self.active_key.secret@, crate::keri::rot_signed_bytes(rot)));
            lemma_parse_own_sig(crate::primitives::ed25519_signature(new_active.secret@, crate::keri::rot_signed_bytes(rot)));
            lemma_hex_roundtrip(new_prerot_commitment@);
            lemma_hex_roundtrip(prev_digest@);
        }
        self.event_log.push(KeyEvent::Rotation(rot));
        self.active_key = new_active;
        self.next_key_commitment = new_prerot_commitment;
        self.rotation = next_rotation;
        proof {
            let log = self.event_log@;
            assert(log.drop_last() =~= ghost_old.event_log@);
            if persona_of_seed(ghost_old, master_seed@) && seed_signs_soundly(master_seed@) {
                assert(signature_sound(ghost_old.active_key.secret@, rot_signed_bytes(rot)));
                assert(signature_sound(key_at(master_seed@, next_rotation), rot_signed_bytes(rot)));
                reveal(rotation_check);
                assert(log.len() >= 2);
            }
        }
        let n = self.event_log.len();
        match &self.event_log[n - 1] {
            KeyEvent::Rotation(r) => Ok(r),
            KeyEvent::Inception(_) => {
                assert(false);
                Err(CryptoError::InvalidEventLog(String::new()))
            },
        }
    }
}

} // verus!
