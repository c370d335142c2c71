//! The error type of the identity operations.

use vstd::prelude::*;
use vstd::string::*;

verus! {

/// Every error that an identity operation can return; the text says what failed.
#[derive(Debug)]
pub enum CryptoError {
    /// A BIP-39 mnemonic phrase was invalid.
    InvalidMnemonic(String),
    /// SLIP-0010 or Argon2id key derivation failed.
    KeyDerivation(String),
    /// AEAD encryption failed.
    Encryption(String),
    /// AEAD authentication / decryption failed.
    Decryption(String),
    /// Vault data is structurally invalid or tampered.
    VaultCorrupted(String),
    /// A key-event signature failed verification.
    SignatureInvalid(String),
    /// The identifier event log has a structural or logical error.
    InvalidEventLog(String),
    /// Serialization or deserialization error.
    Serialization(String),
    /// Filesystem or I/O error.
    Io(String),
}

/// The variant of a [`CryptoError`], without its text.
#[derive(Debug, Clone, Copy, PartialEq, Eq, Structural)]
pub enum CryptoErrorKind {
    InvalidMnemonic,
    KeyDerivation,
    Encryption,
    Decryption,
    VaultCorrupted,
    SignatureInvalid,
    InvalidEventLog,
    Serialization,
    Io,
}

impl CryptoError {
    /// The variant of this error.
    pub open spec fn kind(&self) -> CryptoErrorKind {
        match self {
            CryptoError::InvalidMnemonic(_) => CryptoErrorKind::InvalidMnemonic,
            CryptoError::KeyDerivation(_) => CryptoErrorKind::KeyDerivation,
            CryptoError::Encryption(_) => CryptoErrorKind::Encryption,
            CryptoError::Decryption(_) => CryptoErrorKind::Decryption,
            CryptoError::VaultCorrupted(_) => CryptoErrorKind::VaultCorrupted,
            CryptoError::SignatureInvalid(_) => CryptoErrorKind::SignatureInvalid,
            CryptoError::InvalidEventLog(_) => CryptoErrorKind::InvalidEventLog,
            CryptoError::Serialization(_) => CryptoErrorKind::Serialization,
            CryptoError::Io(_) => CryptoErrorKind::Io,
        }
    }

    /// The text carried by this error.
    pub open spec fn detail(&self) -> Seq<char> {
        match self {
            CryptoError::InvalidMnemonic(s) => s@,
            CryptoError::KeyDerivation(s) => s@,
            CryptoError::Encryption(s) => s@,
            CryptoError::Decryption(s) => s@,
            CryptoError::VaultCorrupted(s) => s@,
            CryptoError::SignatureInvalid(s) => s@,
            CryptoError::InvalidEventLog(s) => s@,
            CryptoError::Serialization(s) => s@,
            CryptoError::Io(s) => s@,
        }
    }

    /// The `MODULE:CODE: ` prefix that the error's message starts with.
    pub open spec fn prefix(&self) -> Seq<char> {
        match self {
            CryptoError::InvalidMnemonic(_) => "CRYPTO:INVALID_MNEMONIC: "@,
            CryptoError::KeyDerivation(_) => "CRYPTO:KEY_DERIVATION: "@,
            CryptoError::Encryption(_) => "CRYPTO:ENCRYPTION: "@,
            CryptoError::Decryption(_) => "CRYPTO:DECRYPTION: "@,
            CryptoError::VaultCorrupted(_) => "CRYPTO:VAULT_CORRUPTED: "@,
            CryptoError::SignatureInvalid(_) => "CRYPTO:SIGNATURE_INVALID: "@,
            CryptoError::InvalidEventLog(_) => "CRYPTO:INVALID_EVENT_LOG: "@,
            CryptoError::Serialization(_) => "CRYPTO:SERIALIZATION: "@,
            CryptoError::Io(_) => "CRYPTO:IO: "@,
        }
    }

    /// The human-readable message: the prefix followed by the error's text.
    pub fn message(&self) -> (r: String)
        ensures
            r@ == self.prefix() + self.detail(),
    {
        let (p, s) = match self {
            CryptoError::InvalidMnemonic(s) => ("CRYPTO:INVALID_MNEMONIC: ", s),
            CryptoError::KeyDerivation(s) => ("CRYPTO:KEY_DERIVATION: ", s),
            CryptoError::Encryption(s) => ("CRYPTO:ENCRYPTION: ", s),
            CryptoError::Decryption(s) => ("CRYPTO:DECRYPTION: ", s),
            CryptoError::VaultCorrupted(s) => ("CRYPTO:VAULT_CORRUPTED: ", s),
            CryptoError::SignatureInvalid(s) => ("CRYPTO:SIGNATURE_INVALID: ", s),
            CryptoError::InvalidEventLog(s) => ("CRYPTO:INVALID_EVENT_LOG: ", s),
            CryptoError::Serialization(s) => ("CRYPTO:SERIALIZATION: ", s),
            CryptoError::Io(s) => ("CRYPTO:IO: ", s),
        };
        let mut r = String::from_str(p);
        r.append(s.as_str());
        r
    }
}

} // verus!
