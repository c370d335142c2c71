//! The cryptographic primitives this library calls in outside crates:
//! BLAKE3, SHA-256, Ed25519, HMAC-SHA512, HKDF-SHA256, Argon2id, ChaCha20-Poly1305,
//! AES-256-GCM, BIP-39, the operating system's randomness and clock.
//!
//! Each function below is trusted: Verus does not read its body. Its contract
//! names the result of the outside computation (a deterministic function of
//! the arguments) and states only the short facts that the outside crate's
//! source or documentation shows.

use vstd::prelude::*;
use crate::text::{ascii_chars, split_ws};
use crate::encoding::b64_bytes;

use ed25519_dalek::Signer;
use hmac::Mac;
use chacha20poly1305::aead::{Aead, KeyInit};
use rand::RngCore;
use rand::Rng;
use argon2::PasswordHasher;
use sha2::Digest;

verus! {

// ── BLAKE3 ────────────────────────────────────────────────────────────────

/// The BLAKE3 digest of `data` (32 bytes).
pub uninterp spec fn blake3_digest(data: Seq<u8>) -> Seq<u8>;

/// `blake3::hash`: the 32-byte BLAKE3 digest of `data`.
#[verifier::external_body]
pub(crate) fn blake3_hash(data: &[u8]) -> (r: [u8; 32])
    ensures
        r@ == blake3_digest(data@),
{
    *blake3::hash(data).as_bytes()
}

// ── SHA-256 ───────────────────────────────────────────────────────────────

/// The SHA-256 digest of `data` (32 bytes).
pub uninterp spec fn sha256_digest(data: Seq<u8>) -> Seq<u8>;

/// `Sha256::digest`: the 32-byte SHA-256 digest of `data`.
#[verifier::external_body]
pub(crate) fn sha256_hash(data: &[u8]) -> (r: [u8; 32])
    ensures
        r@ == sha256_digest(data@),
{
    sha2::Sha256::digest(data).into()
}

// ── Ed25519 ───────────────────────────────────────────────────────────────

/// The compressed public key of the Ed25519 secret key `secret`.
pub uninterp spec fn ed25519_public(secret: Seq<u8>) -> Seq<u8>;

/// Whether `public` decompresses to a curve point (`VerifyingKey::from_bytes` succeeds).
pub uninterp spec fn ed25519_point_valid(public: Seq<u8>) -> bool;

/// The Ed25519 signature of `msg` under the secret key `secret`.
pub uninterp spec fn ed25519_signature(secret: Seq<u8>, msg: Seq<u8>) -> Seq<u8>;

/// Whether `sig` passes strict Ed25519 verification of `msg` under `public`.
pub uninterp spec fn ed25519_verifies(public: Seq<u8>, msg: Seq<u8>, sig: Seq<u8>) -> bool;

/// `SigningKey::from_bytes(secret).verifying_key().to_bytes()`: the public
/// key of a secret key. A verifying key built from a secret key is a valid
/// curve point, so it decompresses again.
#[verifier::external_body]
pub(crate) fn ed25519_public_key(secret: &[u8; 32]) -> (r: [u8; 32])
    ensures
        r@ == ed25519_public(secret@),
        ed25519_point_valid(r@),
{
    ed25519_dalek::SigningKey::from_bytes(secret).verifying_key().to_bytes()
}

/// `SigningKey::sign`: the signature of `msg` under `secret`. Nothing more is
/// claimed: in particular not that `verify_strict` accepts it, which fails
/// for a message whose nonce hash is a multiple of the group order.
#[verifier::external_body]
pub(crate) fn ed25519_sign(secret: &[u8; 32], msg: &[u8]) -> (r: [u8; 64])
    ensures
        r@ == ed25519_signature(secret@, msg@),
{
    ed25519_dalek::SigningKey::from_bytes(secret).sign(msg).to_bytes()
}

/// `VerifyingKey::from_bytes(public)`: `Err` carries the error's text.
#[verifier::external_body]
pub(crate) fn ed25519_point_check(public: &[u8; 32]) -> (r: Result<(), String>)
    ensures
        r is Ok <==> ed25519_point_valid(public@),
{
    match ed25519_dalek::VerifyingKey::from_bytes(public) {
        Ok(_) => Ok(()),
        Err(e) => Err(e.to_string()),
    }
}

/// `VerifyingKey::verify_strict`: strict verification of `sig` over `msg`
/// under a public key that decompresses; `Err` carries the error's text.
#[verifier::external_body]
pub(crate) fn ed25519_verify_strict(public: &[u8; 32], msg: &[u8], sig: &[u8; 64]) -> (r: Result<(), String>)
    requires
        ed25519_point_valid(public@),
    ensures
        r is Ok <==> ed25519_verifies(public@, msg@, sig@),
{
    match ed25519_dalek::VerifyingKey::from_bytes(public) {
        Ok(vk) => vk.verify_strict(msg, &ed25519_dalek::Signature::from_bytes(sig)).map_err(|e| e.to_string()),
        Err(e) => Err(e.to_string()),
    }
}

// ── HMAC-SHA512 and HKDF-SHA256 ───────────────────────────────────────────

/// HMAC-SHA512 of `data` under `key` (64 bytes).
pub uninterp spec fn hmac_sha512_tag(key: Seq<u8>, data: Seq<u8>) -> Seq<u8>;

/// `Hmac::<Sha512>::new_from_slice(key)`, `update(data)`, `finalize()`.
/// HMAC accepts keys of every length, so the construction never fails.
#[verifier::external_body]
pub(crate) fn hmac_sha512(key: &[u8], data: &[u8]) -> (r: Result<[u8; 64], ()>)
    ensures
        r is Ok,
        r matches Ok(t) ==> t@ == hmac_sha512_tag(key@, data@),
{
    let mut mac = match <hmac::Hmac<sha2::Sha512> as hmac::Mac>::new_from_slice(key) {
        Ok(m) => m,
        Err(_) => return Err(()),
    };
    mac.update(data);
    let mut out = [0u8; 64];
    out.copy_from_slice(&mac.finalize().into_bytes());
    Ok(out)
}

/// HKDF-SHA256 (extract with `salt`, expand with `info`) of `ikm`, 32 bytes.
pub uninterp spec fn hkdf_sha256_okm32(salt: Seq<u8>, ikm: Seq<u8>, info: Seq<u8>) -> Seq<u8>;

/// `Hkdf::<Sha256>::new(Some(salt), ikm).expand(info, &mut [0u8; 32])`.
/// Expansion fails only above 255 hash lengths, so 32 bytes always succeed.
#[verifier::external_body]
pub(crate) fn hkdf_sha256_32(salt: &[u8], ikm: &[u8], info: &[u8]) -> (r: Result<[u8; 32], ()>)
    ensures
        r is Ok,
        r matches Ok(k) ==> k@ == hkdf_sha256_okm32(salt@, ikm@, info@),
{
    let hk = hkdf::Hkdf::<sha2::Sha256>::new(Some(salt), ikm);
    let mut k = [0u8; 32];
    match hk.expand(info, &mut k) {
        Ok(()) => Ok(k),
        Err(_) => Err(()),
    }
}

// ── Argon2id ──────────────────────────────────────────────────────────────

/// The Argon2id (version 0x13) output for `password` and the base64 salt
/// string `salt_b64` with the given cost parameters, or `None` when the
/// parameters or the salt string are refused.
pub uninterp spec fn argon2id_output(
    password: Seq<u8>,
    salt_b64: Seq<char>,
    m_cost: u32,
    t_cost: u32,
    p_cost: u32,
    out_len: usize,
) -> Option<Seq<u8>>;

/// `Params::new`, `Argon2::new(Argon2id, V0x13, ..)`, `SaltString::from_b64`
/// and `PasswordHasher::hash_password`: `Err` carries the outside error's
/// text, `Ok(None)` a hash without output. The output has the requested length.
/// Stated fact from the sources: with m=65536 KiB, t=3, p=4, a 32-byte output,
/// a password of at most `u32::MAX` bytes and a salt string that is the
/// unpadded standard base64 of 16 bytes (22 characters of the PHC salt
/// alphabet, decoding to 16 ≥ 8 bytes), every check passes and the hash has
/// an output.
#[verifier::external_body]
pub(crate) fn argon2id_derive(
    password: &[u8],
    salt_b64: &str,
    m_cost: u32,
    t_cost: u32,
    p_cost: u32,
    out_len: usize,
) -> (r: Result<Option<Vec<u8>>, String>)
    ensures
        argon2id_output(password@, salt_b64@, m_cost, t_cost, p_cost, out_len) is Some
            <==> r matches Ok(Some(_)),
        r matches Ok(Some(v)) ==> argon2id_output(password@, salt_b64@, m_cost, t_cost, p_cost, out_len)
            == Some(v@) && v@.len() == out_len,
        m_cost == 65536 && t_cost == 3 && p_cost == 4 && out_len == 32 && password@.len() <= 0xFFFF_FFFF
            && (exists|salt: Seq<u8>| salt.len() == 16 && salt_b64@ == #[trigger] ascii_chars(b64_bytes(salt, false)))
            ==> r matches Ok(Some(_)),
{
    let params = argon2::Params::new(m_cost, t_cost, p_cost, Some(out_len))
        .map_err(|e| e.to_string())?;
    let hasher = argon2::Argon2::new(argon2::Algorithm::Argon2id, argon2::Version::V0x13, params);
    let salt = argon2::password_hash::SaltString::from_b64(salt_b64).map_err(|e| e.to_string())?;
    let hash = hasher.hash_password(password, &salt).map_err(|e| e.to_string())?;
    Ok(hash.hash.map(|h| h.as_bytes().to_vec()))
}

// ── ChaCha20-Poly1305 ─────────────────────────────────────────────────────

/// ChaCha20-Poly1305 encryption of `pt` (no associated data), or `None`.
pub uninterp spec fn chacha20poly1305_seal(key: Seq<u8>, nonce: Seq<u8>, pt: Seq<u8>) -> Option<Seq<u8>>;

/// ChaCha20-Poly1305 authenticated decryption of `ct`, or `None`.
pub uninterp spec fn chacha20poly1305_open(key: Seq<u8>, nonce: Seq<u8>, ct: Seq<u8>) -> Option<Seq<u8>>;

/// `ChaCha20Poly1305::new(key).encrypt(nonce, pt)`. Stated facts: it refuses
/// only plaintexts of `64 * u32::MAX` bytes or more (the cipher's block-count
/// check); the ciphertext carries a 16-byte postfix tag; decryption with the
/// same key and nonce gives the plaintext back (AEAD correctness).
#[verifier::external_body]
pub(crate) fn chacha20poly1305_encrypt(key: &[u8; 32], nonce: &[u8; 12], pt: &[u8]) -> (r: Option<Vec<u8>>)
    ensures
        r is Some <==> chacha20poly1305_seal(key@, nonce@, pt@) is Some,
        pt@.len() < 64 * 0xFFFF_FFFF ==> r is Some,
        r matches Some(c) ==> chacha20poly1305_seal(key@, nonce@, pt@) == Some(c@)
            && c@.len() == pt@.len() + 16
            && chacha20poly1305_open(key@, nonce@, c@) == Some(pt@),
{
    let cipher = chacha20poly1305::ChaCha20Poly1305::new(chacha20poly1305::Key::from_slice(key));
    cipher.encrypt(chacha20poly1305::Nonce::from_slice(nonce), pt).ok()
}

/// `ChaCha20Poly1305::new(key).decrypt(nonce, ct)`.
#[verifier::external_body]
pub(crate) fn chacha20poly1305_decrypt(key: &[u8; 32], nonce: &[u8; 12], ct: &[u8]) -> (r: Option<Vec<u8>>)
    ensures
        r is Some <==> chacha20poly1305_open(key@, nonce@, ct@) is Some,
        r matches Some(p) ==> chacha20poly1305_open(key@, nonce@, ct@) == Some(p@),
{
    let cipher = chacha20poly1305::ChaCha20Poly1305::new(chacha20poly1305::Key::from_slice(key));
    cipher.decrypt(chacha20poly1305::Nonce::from_slice(nonce), ct).ok()
}

// ── AES-256-GCM ───────────────────────────────────────────────────────────

/// AES-256-GCM encryption of `pt` (no associated data), or `None`.
pub uninterp spec fn aes256gcm_seal(key: Seq<u8>, nonce: Seq<u8>, pt: Seq<u8>) -> Option<Seq<u8>>;

/// AES-256-GCM authenticated decryption of `ct`, or `None`.
pub uninterp spec fn aes256gcm_open(key: Seq<u8>, nonce: Seq<u8>, ct: Seq<u8>) -> Option<Seq<u8>>;

/// `Aes256Gcm::new(key).encrypt(nonce, pt)`. Stated facts: it refuses only
/// plaintexts above 2^36 bytes; the ciphertext carries a 16-byte postfix tag;
/// decryption with the same key and nonce gives the plaintext back.
#[verifier::external_body]
pub(crate) fn aes256gcm_encrypt(key: &[u8; 32], nonce: &[u8; 12], pt: &[u8]) -> (r: Option<Vec<u8>>)
    ensures
        r is Some <==> aes256gcm_seal(key@, nonce@, pt@) is Some,
        pt@.len() <= 0x10_0000_0000 ==> r is Some,
        r matches Some(c) ==> aes256gcm_seal(key@, nonce@, pt@) == Some(c@)
            && c@.len() == pt@.len() + 16
            && aes256gcm_open(key@, nonce@, c@) == Some(pt@),
{
    let cipher = aes_gcm::Aes256Gcm::new(aes_gcm::Key::<aes_gcm::Aes256Gcm>::from_slice(key));
    cipher.encrypt(aes_gcm::Nonce::from_slice(nonce), pt).ok()
}

/// `Aes256Gcm::new(key).decrypt(nonce, ct)`.
#[verifier::external_body]
pub(crate) fn aes256gcm_decrypt(key: &[u8; 32], nonce: &[u8; 12], ct: &[u8]) -> (r: Option<Vec<u8>>)
    ensures
        r is Some <==> aes256gcm_open(key@, nonce@, ct@) is Some,
        r matches Some(p) ==> aes256gcm_open(key@, nonce@, ct@) == Some(p@),
{
    let cipher = aes_gcm::Aes256Gcm::new(aes_gcm::Key::<aes_gcm::Aes256Gcm>::from_slice(key));
    cipher.decrypt(aes_gcm::Nonce::from_slice(nonce), ct).ok()
}

// ── BIP-39 ────────────────────────────────────────────────────────────────

/// Whether `phrase` parses as an English BIP-39 mnemonic.
pub uninterp spec fn bip39_phrase_valid(phrase: Seq<char>) -> bool;

/// The 64-byte BIP-39 seed (empty passphrase) of the mnemonic `phrase`.
pub uninterp spec fn bip39_seed(phrase: Seq<char>) -> Seq<u8>;

/// `Mnemonic::parse_in(Language::English, phrase)` then `to_seed("")`;
/// `Err` carries the parse error's text.
#[verifier::external_body]
pub(crate) fn bip39_restore(phrase: &str) -> (r: Result<Vec<u8>, String>)
    ensures
        r is Ok <==> bip39_phrase_valid(phrase@),
        r matches Ok(s) ==> s@ == bip39_seed(phrase@) && s@.len() == 64,
{
    match ::bip39::Mnemonic::parse_in(::bip39::Language::English, phrase) {
        Ok(m) => Ok(m.to_seed("").to_vec()),
        Err(e) => Err(e.to_string()),
    }
}

/// `Mnemonic::generate_in(Language::English, 24)` from operating-system
/// entropy, its phrase (`to_string`) and its seed (`to_seed("")`). Stated
/// facts: the phrase has 24 words and parses back to the same mnemonic, so
/// its seed is the seed of the phrase. Panics, as that call's `expect` does,
/// when no entropy is available.
#[verifier::external_body]
pub(crate) fn bip39_generate() -> (r: (String, Vec<u8>))
    ensures
        bip39_phrase_valid(r.0@),
        r.1@ == bip39_seed(r.0@),
        r.1@.len() == 64,
        split_ws(r.0@).len() == 24,
{
    let m = ::bip39::Mnemonic::generate_in(::bip39::Language::English, 24)
        .expect("OS entropy unavailable — cannot generate mnemonic");
    (m.to_string(), m.to_seed("").to_vec())
}

// ── Randomness and time ───────────────────────────────────────────────────

/// `OsRng.fill_bytes`: `n` bytes from the operating system's generator.
#[verifier::external_body]
pub(crate) fn os_random_bytes(n: usize) -> (r: Vec<u8>)
    ensures
        r@.len() == n,
{
    let mut v = vec![0u8; n];
    rand::rngs::OsRng.fill_bytes(&mut v);
    v
}

/// `rand::thread_rng().fill`: `n` bytes from the thread-local generator.
#[verifier::external_body]
pub(crate) fn thread_random_bytes(n: usize) -> (r: Vec<u8>)
    ensures
        r@.len() == n,
{
    let mut v = vec![0u8; n];
    rand::thread_rng().fill(&mut v[..]);
    v
}

/// `rand::thread_rng().gen_range(lo..hi)`: a number from the thread-local
/// generator in `[lo, hi)`. Nothing else is stated of it.
#[verifier::external_body]
pub(crate) fn thread_random_below(lo: u64, hi: u64) -> (r: u64)
    requires
        lo < hi,
    ensures
        lo <= r < hi,
{
    rand::thread_rng().gen_range(lo..hi)
}

/// `SystemTime::now().duration_since(UNIX_EPOCH)` in whole seconds, or
/// `None` when the system clock reads before the epoch. Nothing is stated
/// of the value.
#[verifier::external_body]
pub(crate) fn unix_time_secs() -> (r: Option<u64>) {
    match std::time::SystemTime::now().duration_since(std::time::UNIX_EPOCH) {
        Ok(d) => Some(d.as_secs()),
        Err(_) => None,
    }
}

} // verus!
