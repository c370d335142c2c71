//! Ed25519 keys held as plain bytes: a signing key is its 32-byte secret, a
//! verifying key its 32-byte compressed point.

use vstd::prelude::*;
use crate::primitives::{ed25519_public, ed25519_point_valid, ed25519_signature, ed25519_public_key, ed25519_sign};

verus! {

/// An Ed25519 signing key, held as its 32-byte secret.
pub struct SigningKey {
    /// The secret key bytes.
    pub secret: [u8; 32],
}

/// An Ed25519 verifying (public) key, held as its 32-byte compressed point.
#[derive(Debug, Clone, Copy, PartialEq, Eq)]
pub struct VerifyingKey {
    /// The compressed point.
    pub bytes: [u8; 32],
}

impl SigningKey {
    /// The signing key with the given secret bytes.
    pub fn from_bytes(secret: &[u8; 32]) -> (k: SigningKey)
        ensures
            k.secret@ == secret@,
    {
        SigningKey { secret: *secret }
    }

    /// The secret bytes.
    pub fn to_bytes(&self) -> (r: [u8; 32])
        ensures
            r@ == self.secret@,
    {
        self.secret
    }

    /// The public key of this signing key.
    pub fn verifying_key(&self) -> (vk: VerifyingKey)
        ensures
            vk.bytes@ == ed25519_public(self.secret@),
            ed25519_point_valid(vk.bytes@),
    {
        VerifyingKey { bytes: ed25519_public_key(&self.secret) }
    }

    /// The Ed25519 signature of `msg` under this key.
    pub fn sign(&self, msg: &[u8]) -> (sig: [u8; 64])
        ensures
            sig@ == ed25519_signature(self.secret@, msg@),
    {
        ed25519_sign(&self.secret, msg)
    }
}

impl VerifyingKey {
    /// The compressed point bytes.
    pub fn to_bytes(&self) -> (r: [u8; 32])
        ensures
            r@ == self.bytes@,
    {
        self.bytes
    }

    /// The compressed point bytes, borrowed.
    pub fn as_bytes(&self) -> (r: &[u8; 32])
        ensures
            r@ == self.bytes@,
    {
        &self.bytes
    }
}

} // verus!
