//! The earlier, smaller command set of the Shell's IPC: a command enum and
//! a response enum, kept for clients that still speak it.

use vstd::prelude::*;

verus! {

/// Structured commands for the Shell.
#[derive(Debug, Clone)]
pub enum GhostCommand {
    /// Check Shell health.
    Ping,
    /// Initialize a new sovereign identity.
    InitIdentity,
    /// Check the status of the local vault and identity.
    Status,
    /// Attempt to connect to a peer using their GhostID.
    Connect(String),
    /// Send an encrypted string to a resolved GhostID.
    SendMessage { target_id: String, content: String },
}

/// Structured responses from the Shell.
#[derive(Debug, Clone)]
pub enum GhostResponse {
    /// Generic success message.
    Ack(String),
    /// The 24-word mnemonic.
    Mnemonic(Vec<String>),
    /// Standardized error message.
    Error(String),
    /// Confirmation of a decrypted identity.
    IdentityFound(String),
    /// Response for a successful connection attempt.
    LinkEstablished(String),
    /// Confirmation the data entered the QUIC egress queue.
    MessageSent(String),
}

} // verus!
