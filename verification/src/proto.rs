//! The IPC protocol between `tscd` and its clients: the commands, the
//! responses, and the framing of messages on the socket.
//!
//! Every message travels as a 4-byte little-endian payload length followed
//! by the encoded payload; a reader refuses lengths above 64 KiB.

use vstd::prelude::*;
use crate::bytes::{append_bytes, le_bytes, le_value, u32_from_le, u32_le};
use crate::json::{decimal, decimal_string};
use crate::text::ascii_chars;

verus! {

/// Wire protocol version. Both sides must agree before exchanging commands.
pub const PROTO_VERSION: u32 = 1;

/// The largest payload a reader accepts, in bytes.
pub const MAX_FRAME_LEN: usize = 65536;

/// Every control command an IPC client can send to `tscd`.
#[derive(Debug, Clone)]
pub enum GhostCommand {
    /// Heartbeat / liveness check.
    Ping,
    /// Create a new sovereign identity.
    InitIdentity,
    /// Restore an identity from an existing mnemonic phrase.
    RecoverIdentity {
        /// Space-separated 24-word BIP-39 mnemonic.
        mnemonic: String,
    },
    /// Return current daemon status.
    Status,
    /// Resolve a GhostID to a network address via the DHT.
    Resolve {
        /// The target GhostID.
        ghost_id: String,
    },
    /// Establish a GSP connection to a peer.
    Connect {
        /// The target GhostID.
        ghost_id: String,
    },
    /// Send an encrypted message to a connected peer.
    SendMessage {
        /// The target GhostID.
        target_id: String,
        /// Plaintext content (encrypted in transit).
        content: String,
    },
    /// Spawn a new Ghost-Box from an OCI image hash.
    SpawnGhost {
        /// BLAKE3 hash of the OCI image to run.
        image_hash: String,
        /// Optional vault ID for persistent storage; `None` is an ephemeral Ghost.
        vault_id: Option<String>,
    },
    /// List all currently running Ghost processes.
    ListGhosts,
    /// Terminate a running Ghost by its GhostID.
    StopGhost {
        /// The GhostID of the running instance to stop.
        ghost_id: String,
    },
    /// Rotate the active signing key (KERI rotation event).
    RotateKey {
        /// The BIP-39 mnemonic phrase authorizing this rotation.
        mnemonic: String,
    },
    /// Connect directly to a peer by IP:port, bypassing DHT resolution.
    ConnectDirect {
        /// Socket address of the remote peer, e.g. `"1.2.3.4:9090"`.
        addr: String,
    },
    /// Send a message to a peer by IP:port, bypassing DHT resolution.
    SendDirect {
        /// Socket address of the remote peer.
        addr: String,
        /// Message content to deliver.
        content: String,
    },
}

/// Every response `tscd` can return to an IPC client.
#[derive(Debug)]
pub enum GhostResponse {
    /// Generic success with a human-readable message.
    Ack(String),
    /// Structured error, formatted `"MODULE:CODE: description"`.
    Error(String),
    /// The 24 mnemonic words, returned after `InitIdentity`.
    Mnemonic(Vec<String>),
    /// Full daemon status snapshot.
    Status(DaemonStatus),
    /// A resolved network address for a GhostID.
    Resolved {
        /// The queried GhostID.
        ghost_id: String,
        /// Resolved socket address.
        addr: String,
    },
    /// GSP link established to a remote peer.
    LinkEstablished {
        /// The remote peer's GhostID.
        remote_id: String,
        /// The address the connection was made to.
        addr: String,
    },
    /// GSP direct link established (no DHT lookup).
    DirectLinkEstablished {
        /// Verified GhostID of the remote peer, or `"unverified"`.
        remote_id: String,
        /// The address that was dialled.
        addr: String,
    },
    /// Message handed to the GSP egress queue.
    MessageSent {
        /// The target GhostID.
        target_id: String,
    },
    /// A Ghost-Box was spawned.
    GhostSpawned {
        /// Host PID of the container leader process.
        pid: u32,
        /// Virtual IPv6 address assigned inside the Ghost namespace.
        virtual_ip: String,
    },
    /// Snapshot of all running Ghosts.
    GhostList(Vec<GhostInfo>),
    /// A Ghost was cleanly terminated.
    GhostStopped {
        /// The GhostID that was stopped.
        ghost_id: String,
    },
    /// Key rotation completed; the GhostID is unchanged.
    KeyRotated {
        /// The new Ed25519 public key, hex-encoded.
        new_public_key: String,
    },
}

/// A snapshot of the daemon's current state.
#[derive(Debug)]
pub struct DaemonStatus {
    /// The persistent GhostID (or `"ephemeral:<id>"` without a vault).
    pub ghost_id: String,
    /// Current vault state.
    pub vault_state: VaultState,
    /// Number of connected peers in the DHT swarm.
    pub peer_count: usize,
    /// Number of active Ghost-Box processes.
    pub active_ghosts: usize,
    /// Seconds since `tscd` started.
    pub uptime_secs: u64,
}

/// The state of the identity vault.
#[derive(Debug, Clone, Copy, PartialEq, Eq, Structural)]
pub enum VaultState {
    /// Vault is open and the persistent identity is active.
    Unlocked,
    /// Vault file exists but the daemon cannot open it.
    Locked,
    /// No vault; running with a session-only ephemeral identity.
    Ephemeral,
}

/// A summary of one running Ghost-Box.
#[derive(Debug)]
pub struct GhostInfo {
    /// The GhostID of this Ghost instance.
    pub ghost_id: String,
    /// Host-side PID of the container leader.
    pub pid: u32,
    /// Virtual IPv6 address assigned to this Ghost.
    pub virtual_ip: String,
    /// Human-readable status.
    pub status: String,
    /// Seconds this Ghost has been running.
    pub uptime_secs: u64,
}

/// Errors of IPC framing; the outside errors are carried as their text.
#[derive(Debug)]
pub enum FrameError {
    /// An I/O error on the socket.
    Io(String),
    /// Encoding a message failed.
    Serialize(String),
    /// Decoding a message failed.
    Deserialize(String),
    /// The peer announced a payload above the 64 KiB maximum.
    FrameTooLarge(usize),
}

/// The characters of the decimal digits of `n`.
pub open spec fn dec_chars(n: nat) -> Seq<char> {
    ascii_chars(decimal(n))
}

impl FrameError {
    /// The text of the error's message.
    pub open spec fn message_spec(&self) -> Seq<char> {
        match self {
            FrameError::Io(s) => "IPC I/O error: "@ + s@,
            FrameError::Serialize(s) => "IPC serialize error: "@ + s@,
            FrameError::Deserialize(s) => "IPC deserialize error: "@ + s@,
            FrameError::FrameTooLarge(n) => "IPC frame too large: "@ + dec_chars(*n as nat) + " bytes (max 65536)"@,
        }
    }

    /// The human-readable message.
    pub fn message(&self) -> (r: String)
        ensures
            r@ == self.message_spec(),
    {
        match self {
            FrameError::Io(s) => {
                let mut r = String::from_str("IPC I/O error: ");
                r.append(s.as_str());
                r
            },
            FrameError::Serialize(s) => {
                let mut r = String::from_str("IPC serialize error: ");
                r.append(s.as_str());
                r
            },
            FrameError::Deserialize(s) => {
                let mut r = String::from_str("IPC deserialize error: ");
                r.append(s.as_str());
                r
            },
            FrameError::FrameTooLarge(n) => {
                let mut r = String::from_str("IPC frame too large: ");
                let d = decimal_string(*n as u64);
                r.append(d.as_str());
                r.append(" bytes (max 65536)");
                r
            },
        }
    }
}

/// A framed message: the payload length (taken modulo 2^32) on 4
/// little-endian bytes, then the payload.
pub open spec fn ipc_frame(payload: Seq<u8>) -> Seq<u8> {
    le_bytes(payload.len() % 0x1_0000_0000, 4) + payload
}

/// Frames an encoded message for writing to the socket.
pub fn frame_payload(payload: &[u8]) -> (r: Vec<u8>)
    ensures
        r@ == ipc_frame(payload@),
{
    let len: u32 = (payload.len() as u64 % 0x1_0000_0000) as u32;
    let mut out: Vec<u8> = Vec::new();
    append_bytes(&mut out, &u32_le(len));
    append_bytes(&mut out, payload);
    out
}

/// What a reader does with a received length prefix: the payload length to
/// read next, or `FrameTooLarge` above the maximum.
pub fn frame_length(header: [u8; 4]) -> (r: Result<usize, FrameError>)
    ensures
        le_value(header@) <= MAX_FRAME_LEN ==> r == Ok::<usize, FrameError>(le_value(header@) as usize),
        le_value(header@) > MAX_FRAME_LEN ==> (r matches Err(FrameError::FrameTooLarge(n)) && n == le_value(header@)),
{
    let len = u32_from_le(&header);
    if len as u64 > MAX_FRAME_LEN as u64 {
        return Err(FrameError::FrameTooLarge(len as usize));
    }
    Ok(len as usize)
}

/// A reader of a framed message of at most 64 KiB reads back its length
/// from the prefix and finds the payload right after it.
pub proof fn lemma_ipc_frame_roundtrip(payload: Seq<u8>)
    requires
        payload.len() <= MAX_FRAME_LEN,
    ensures
        le_value(ipc_frame(payload).take(4)) == payload.len(),
        ipc_frame(payload).skip(4) == payload,
{
    crate::bytes::lemma_le4_roundtrip(payload.len());
    let f = ipc_frame(payload);
    assert(f.take(4) =~= le_bytes(payload.len(), 4));
    assert(f.skip(4) =~= payload);
}

} // verus!
