//! The encrypted mnemonic vault: hardware-bound Argon2id key derivation and
//! ChaCha20-Poly1305 sealing of the mnemonic words.
//!
//! ```text
//! Offset  Size   Field
//! 0       8      Magic: b"TSCVAULT"
//! 8       1      Version: 0x01
//! 9       16     Argon2id salt  (random, generated at vault creation)
//! 25      12     ChaCha20-Poly1305 nonce  (random, generated per write)
//! 37      4      Ciphertext length  (u32 big-endian)
//! 41      N+16   Ciphertext + Poly1305 authentication tag
//! ```
//! The plaintext is the space-separated mnemonic words encoded as UTF-8.
//! Reading and writing the vault file is the caller's part.

use vstd::prelude::*;
use vstd::string::*;
use vstd::utf8::*;
use crate::bytes::{append_bytes, be_bytes, be_value, bytes_equal, lemma_be_roundtrip, pow256, to_array12, to_array16, u32_be, u32_from_be};
use crate::encoding::{b64_bytes, base64_encode_no_pad, hex_encode};
use crate::error::{CryptoError, CryptoErrorKind};
use crate::primitives::{
    argon2id_derive, argon2id_output, chacha20poly1305_decrypt, chacha20poly1305_encrypt,
    chacha20poly1305_open, chacha20poly1305_seal, os_random_bytes,
};
use crate::text::{
    ascii_chars, is_word, join, join_words, lemma_split_join, split_whitespace, split_ws,
    string_from_utf8, trim, trim_ws, views,
};
use crate::encoding::hex_chars;
use crate::primitives::{sha256_digest, sha256_hash};

verus! {

broadcast use vstd::utf8::group_utf8_lib;

/// Argon2id time cost (RFC-006 §6.1).
pub const ARGON2_T: u32 = 3;
/// Argon2id memory cost in KiB (64 MiB).
pub const ARGON2_M: u32 = 65_536;
/// Argon2id parallelism.
pub const ARGON2_P: u32 = 4;
/// Argon2id output length.
pub const ARGON2_LEN: usize = 32;
/// The vault format version.
pub const VERSION: u8 = 0x01;

/// The magic bytes `b"TSCVAULT"`.
pub open spec fn vault_magic() -> Seq<u8> {
    seq![84u8, 83, 67, 86, 65, 85, 76, 84]
}

fn magic_bytes() -> (r: [u8; 8])
    ensures
        r@ == vault_magic(),
{
    let r = [84u8, 83, 67, 86, 65, 85, 76, 84];
    assert(r@ =~= vault_magic());
    r
}

/// The vault file for a salt, nonce and ciphertext.
pub open spec fn vault_file(salt: Seq<u8>, nonce: Seq<u8>, ct: Seq<u8>) -> Seq<u8> {
    vault_magic() + seq![VERSION] + salt + nonce + be_bytes(ct.len() % 0x1_0000_0000, 4) + ct
}

/// The Argon2id password: the key material followed by the hardware UUID's UTF-8 bytes.
pub open spec fn storage_password(key_material: Seq<u8>, hw_uuid: Seq<char>) -> Seq<u8> {
    key_material + encode_utf8(hw_uuid)
}

/// The storage key for key material, hardware UUID and salt, or `None` when
/// Argon2id refuses.
pub open spec fn storage_key_spec(key_material: Seq<u8>, hw_uuid: Seq<char>, salt: Seq<u8>) -> Option<Seq<u8>> {
    match argon2id_output(
        storage_password(key_material, hw_uuid),
        ascii_chars(b64_bytes(salt, false)),
        ARGON2_M,
        ARGON2_T,
        ARGON2_P,
        ARGON2_LEN,
    ) {
        Some(v) => Some(v.subrange(0, 32)),
        None => None,
    }
}

/// The plaintext of the vault: the words joined by single spaces, in UTF-8.
pub open spec fn vault_plaintext(words: Seq<Seq<char>>) -> Seq<u8> {
    encode_utf8(join_words(words, seq![' ']))
}

/// What sealing gives: the vault file, or the error kind.
pub open spec fn seal_spec(
    words: Seq<Seq<char>>,
    key_material: Seq<u8>,
    hw_uuid: Seq<char>,
    salt: Seq<u8>,
    nonce: Seq<u8>,
) -> Result<Seq<u8>, CryptoErrorKind> {
    match storage_key_spec(key_material, hw_uuid, salt) {
        None => Err(CryptoErrorKind::KeyDerivation),
        Some(k) => match chacha20poly1305_seal(k, nonce, vault_plaintext(words)) {
            None => Err(CryptoErrorKind::Encryption),
            Some(ct) => Ok(vault_file(salt, nonce, ct)),
        },
    }
}

/// What unlocking the vault bytes `data` gives: the mnemonic words, or the error kind.
pub open spec fn unlock_spec(key_material: Seq<u8>, hw_uuid: Seq<char>, data: Seq<u8>) -> Result<Seq<Seq<char>>, CryptoErrorKind> {
    if data.len() < 57 {
        Err(CryptoErrorKind::VaultCorrupted)
    } else if data.subrange(0, 8) != vault_magic() {
        Err(CryptoErrorKind::VaultCorrupted)
    } else if data[8] != VERSION {
        Err(CryptoErrorKind::VaultCorrupted)
    } else {
        let ct_len = be_value(data.subrange(37, 41));
        if data.len() < 41 + ct_len {
            Err(CryptoErrorKind::VaultCorrupted)
        } else {
            match storage_key_spec(key_material, hw_uuid, data.subrange(9, 25)) {
                None => Err(CryptoErrorKind::KeyDerivation),
                Some(k) => match chacha20poly1305_open(k, data.subrange(25, 37), data.subrange(41, 41 + ct_len as int)) {
                    None => Err(CryptoErrorKind::Decryption),
                    Some(pt) => if valid_utf8(pt) {
                        Ok(split_ws(decode_utf8(pt)))
                    } else {
                        Err(CryptoErrorKind::VaultCorrupted)
                    },
                },
            }
        }
    }
}

proof fn lemma_vault_file_len(salt: Seq<u8>, nonce: Seq<u8>, ct: Seq<u8>)
    requires
        salt.len() == 16,
        nonce.len() == 12,
    ensures
        vault_file(salt, nonce, ct).len() == 41 + ct.len(),
{
    assert(pow256(4) == 0x1_0000_0000) by {
        reveal_with_fuel(pow256, 5);
    }
    lemma_be_roundtrip(ct.len() % 0x1_0000_0000, 4);
}

/// The storage key is Argon2id (version 0x13, m = 65536 KiB, t = 3, p = 4,
/// 32-byte output) of the password made of the key material followed by the
/// UTF-8 bytes of the hardware UUID, salted with the unpadded standard base64
/// of the 16-byte salt; `None` exactly when Argon2id gives no output.
pub proof fn lemma_storage_key_is_argon2id(key_material: Seq<u8>, hw_uuid: Seq<char>, salt: Seq<u8>)
    ensures
        storage_key_spec(key_material, hw_uuid, salt) == match argon2id_output(
            key_material + encode_utf8(hw_uuid),
            ascii_chars(b64_bytes(salt, false)),
            65536,
            3,
            4,
            32,
        ) {
            Some(v) => Some(v.subrange(0, 32)),
            None => None::<Seq<u8>>,
        },
{
}

/// Sealing fits the primitives' limits: the Argon2id password (key material
/// and hardware UUID) is at most `u32::MAX` bytes and the plaintext is below
/// ChaCha20-Poly1305's `64 * u32::MAX` bytes.
pub open spec fn seal_fits(words: Seq<Seq<char>>, key_len: nat, hw_uuid: Seq<char>) -> bool {
    &&& key_len + encode_utf8(hw_uuid).len() <= 0xFFFF_FFFF
    &&& vault_plaintext(words).len() < 64 * 0xFFFF_FFFF
}

/// Derives the 32-byte storage key from key material and the hardware UUID
/// with Argon2id (t=3, m=64 MiB, p=4) and the 16-byte random `salt`, which
/// the vault header stores.
pub fn derive_storage_key(key_material: &[u8], hw_uuid: &str, salt: &[u8; 16]) -> (r: Result<[u8; 32], CryptoError>)
    ensures
        r is Ok <==> storage_key_spec(key_material@, hw_uuid@, salt@) is Some,
        r matches Ok(k) ==> storage_key_spec(key_material@, hw_uuid@, salt@) == Some(k@),
        r matches Err(e) ==> e.kind() == CryptoErrorKind::KeyDerivation,
        key_material@.len() + encode_utf8(hw_uuid@).len() <= 0xFFFF_FFFF ==> r is Ok,
{
    let mut input: Vec<u8> = Vec::new();
    append_bytes(&mut input, key_material);
    append_bytes(&mut input, hw_uuid.as_bytes());
    let salt_b64 = base64_encode_no_pad(salt);
    proof {
        assert(salt@.len() == 16 && salt_b64@ == ascii_chars(b64_bytes(salt@, false)));
    }
    match argon2id_derive(input.as_slice(), salt_b64.as_str(), ARGON2_M, ARGON2_T, ARGON2_P, ARGON2_LEN) {
        Err(m) => Err(CryptoError::KeyDerivation(m)),
        Ok(None) => Err(CryptoError::KeyDerivation(String::from_str("Argon2id produced no output"))),
        Ok(Some(v)) => {
            let out = crate::bytes::to_array32(&v.as_slice()[0..32]);
            Ok(out)
        },
    }
}

/// Encrypts the mnemonic words under the storage key derived with `salt`
/// and returns the vault file bytes, with the given salt and `nonce`.
///
/// When every word is a non-empty run of non-white-space characters and the
/// ciphertext length fits the header, unlocking the result with the same key
/// material and hardware UUID gives the words back.
pub fn seal_vault(
    words: &[String],
    key_material: &[u8],
    hw_uuid: &str,
    salt: [u8; 16],
    nonce: [u8; 12],
) -> (r: Result<Vec<u8>, CryptoError>)
    ensures
        match r {
            Ok(data) => seal_spec(views(words@), key_material@, hw_uuid@, salt@, nonce@)
                == Ok::<Seq<u8>, CryptoErrorKind>(data@),
            Err(e) => seal_spec(views(words@), key_material@, hw_uuid@, salt@, nonce@)
                == Err::<Seq<u8>, CryptoErrorKind>(e.kind()),
        },
        r matches Ok(data) ==> ((forall|i: int| 0 <= i < words@.len() ==> is_word(#[trigger] words@[i]@))
            && vault_plaintext(views(words@)).len() + 16 < 0x1_0000_0000
            ==> unlock_spec(key_material@, hw_uuid@, data@) == Ok::<Seq<Seq<char>>, CryptoErrorKind>(views(words@))),
        r matches Ok(data) ==> data@.len() == 41 + vault_plaintext(views(words@)).len() + 16,
        seal_fits(views(words@), key_material@.len(), hw_uuid@) ==> r is Ok,
{
    let storage_key = match derive_storage_key(key_material, hw_uuid, &salt) {
        Ok(k) => k,
        Err(e) => return Err(e),
    };
    let phrase = join(words, " ");
    proof {
        reveal_strlit(" ");
        assert(" "@ =~= seq![' ']);
    }
    let plaintext = phrase.as_str().as_bytes();
    let ciphertext = match chacha20poly1305_encrypt(&storage_key, &nonce, plaintext) {
        Some(c) => c,
        None => {
            return Err(CryptoError::Encryption(String::from_str("ChaCha20-Poly1305 encryption failed")));
        },
    };
    let mut file_data: Vec<u8> = Vec::new();
    append_bytes(&mut file_data, &magic_bytes());
    file_data.push(VERSION);
    append_bytes(&mut file_data, &salt);
    append_bytes(&mut file_data, &nonce);
    let l: u64 = ciphertext.len() as u64;
    let ct_len: u32 = (l % 0x1_0000_0000) as u32;
    append_bytes(&mut file_data, &u32_be(ct_len));
    append_bytes(&mut file_data, ciphertext.as_slice());
    proof {
        assert(file_data@ =~= vault_file(salt@, nonce@, ciphertext@));
        lemma_vault_file_len(salt@, nonce@, ciphertext@);
        assert(plaintext@ == vault_plaintext(views(words@)));
        let ws = views(words@);
        if (forall|i: int| 0 <= i < words@.len() ==> is_word(#[trigger] words@[i]@))
            && vault_plaintext(ws).len() + 16 < 0x1_0000_0000 {
            let data = file_data@;
            let n = ciphertext@.len();
            assert forall|i: int| 0 <= i < ws.len() implies is_word(#[trigger] ws[i]) by {
                assert(ws[i] == words@[i]@);
            }
            lemma_split_join(ws);
            assert(pow256(4) == 0x1_0000_0000) by {
                reveal_with_fuel(pow256, 5);
            }
            lemma_be_roundtrip(n, 4);
            assert(data.subrange(0, 8) =~= vault_magic());
            assert(data[8] == VERSION);
            assert(data.subrange(9, 25) =~= salt@);
            assert(data.subrange(25, 37) =~= nonce@);
            assert(data.subrange(37, 41) =~= be_bytes(n % 0x1_0000_0000, 4));
            assert(n % 0x1_0000_0000 == n);
            assert(data.subrange(41, 41 + n as int) =~= ciphertext@);
        }
    }
    Ok(file_data)
}

/// `data` is the vault file that seals `words` under the key material and
/// hardware UUID with the salt and nonce that its header carries.
pub open spec fn sealed_by(data: Seq<u8>, words: Seq<Seq<char>>, key_material: Seq<u8>, hw_uuid: Seq<char>) -> bool {
    &&& data.len() >= 41
    &&& seal_spec(words, key_material, hw_uuid, data.subrange(9, 25), data.subrange(25, 37))
        == Ok::<Seq<u8>, CryptoErrorKind>(data)
}

/// Encrypts the mnemonic words with a fresh random 16-byte Argon2 salt and
/// 12-byte nonce and returns the vault file bytes; the caller writes them.
/// An error is what sealing gives for the salt and nonce that were drawn.
pub fn lock_vault(words: &[String], key_material: &[u8], hw_uuid: &str) -> (r: Result<Vec<u8>, CryptoError>)
    ensures
        r matches Ok(data) ==> sealed_by(data@, views(words@), key_material@, hw_uuid@),
        r matches Err(e) ==> exists|salt: Seq<u8>, nonce: Seq<u8>|
            salt.len() == 16 && nonce.len() == 12 && #[trigger] seal_spec(views(words@), key_material@, hw_uuid@, salt, nonce)
                == Err::<Seq<u8>, CryptoErrorKind>(e.kind()),
        r matches Ok(data) ==> ((forall|i: int| 0 <= i < words@.len() ==> is_word(#[trigger] words@[i]@))
            && vault_plaintext(views(words@)).len() + 16 < 0x1_0000_0000
            ==> unlock_spec(key_material@, hw_uuid@, data@) == Ok::<Seq<Seq<char>>, CryptoErrorKind>(views(words@))),
        r matches Err(e) ==> e.kind() == CryptoErrorKind::KeyDerivation || e.kind() == CryptoErrorKind::Encryption,
        r matches Ok(data) ==> data@.len() == 41 + vault_plaintext(views(words@)).len() + 16,
        seal_fits(views(words@), key_material@.len(), hw_uuid@) ==> r is Ok,
{
    let salt_v = os_random_bytes(16);
    let nonce_v = os_random_bytes(12);
    let salt = to_array16(salt_v.as_slice());
    let nonce = to_array12(nonce_v.as_slice());
    let r = seal_vault(words, key_material, hw_uuid, salt, nonce);
    proof {
        if let Ok(data) = &r {
            let k = storage_key_spec(key_material@, hw_uuid@, salt@)->Some_0;
            let ct = chacha20poly1305_seal(k, nonce@, vault_plaintext(views(words@)))->Some_0;
            lemma_vault_file_len(salt@, nonce@, ct);
            assert(data@.subrange(9, 25) =~= salt@);
            assert(data@.subrange(25, 37) =~= nonce@);
        }
    }
    r
}

/// `detail` is the text of the error that unlocking the vault bytes `data`
/// fails with: a fixed text for each structural, authentication or encoding
/// failure, the version byte in hex for a wrong version; where the storage
/// key cannot be derived, Argon2's own text (not stated).
pub open spec fn unlock_error_detail(key_material: Seq<u8>, hw_uuid: Seq<char>, data: Seq<u8>, detail: Seq<char>) -> bool {
    if data.len() < 57 {
        detail == "File too small to be a valid vault"@
    } else if data.subrange(0, 8) != vault_magic() {
        detail == "Invalid vault magic bytes"@
    } else if data[8] != VERSION {
        detail == "Unsupported vault version: 0x"@ + hex_chars(data.subrange(8, 9))
    } else if data.len() < 41 + be_value(data.subrange(37, 41)) {
        detail == "Vault ciphertext length field is corrupt"@
    } else {
        match storage_key_spec(key_material, hw_uuid, data.subrange(9, 25)) {
            None => true,
            Some(k) => match chacha20poly1305_open(
                k,
                data.subrange(25, 37),
                data.subrange(41, 41 + be_value(data.subrange(37, 41)) as int),
            ) {
                None => detail == "Authentication failed — wrong key or tampered vault"@,
                Some(_) => detail == "Decrypted content is not valid UTF-8"@,
            },
        }
    }
}

/// Decrypts vault file bytes and returns the mnemonic words. Refuses a file
/// that is too small, has the wrong magic or version, or whose length field
/// exceeds the data (`VaultCorrupted`); fails when the key cannot be derived
/// (`KeyDerivation`), when authentication fails — wrong key or tampered data —
/// (`Decryption`), or when the plaintext is not UTF-8 (`VaultCorrupted`).
pub fn unlock_vault(key_material: &[u8], hw_uuid: &str, data: &[u8]) -> (r: Result<Vec<String>, CryptoError>)
    ensures
        match r {
            Ok(ws) => unlock_spec(key_material@, hw_uuid@, data@) == Ok::<Seq<Seq<char>>, CryptoErrorKind>(views(ws@)),
            Err(e) => unlock_spec(key_material@, hw_uuid@, data@) == Err::<Seq<Seq<char>>, CryptoErrorKind>(e.kind())
                && unlock_error_detail(key_material@, hw_uuid@, data@, e.detail()),
        },
{
    if data.len() < 57 {
        return Err(CryptoError::VaultCorrupted(String::from_str("File too small to be a valid vault")));
    }
    let magic = magic_bytes();
    if !bytes_equal(&data[0..8], &magic) {
        return Err(CryptoError::VaultCorrupted(String::from_str("Invalid vault magic bytes")));
    }
    if data[8] != VERSION {
        let mut m = String::from_str("Unsupported vault version: 0x");
        m.append(hex_encode(&data[8..9]).as_str());
        return Err(CryptoError::VaultCorrupted(m));
    }
    let salt = to_array16(&data[9..25]);
    let nonce = to_array12(&data[25..37]);
    let ct_len = u32_from_be(&data[37..41]);
    if (data.len() as u64) < 41 + ct_len as u64 {
        return Err(CryptoError::VaultCorrupted(String::from_str("Vault ciphertext length field is corrupt")));
    }
    let end = 41 + ct_len as usize;
    let ciphertext = &data[41..end];
    let storage_key = match derive_storage_key(key_material, hw_uuid, &salt) {
        Ok(k) => k,
        Err(e) => return Err(e),
    };
    let plaintext = match chacha20poly1305_decrypt(&storage_key, &nonce, ciphertext) {
        Some(p) => p,
        None => {
            return Err(CryptoError::Decryption(
                String::from_str("Authentication failed — wrong key or tampered vault"),
            ));
        },
    };
    let ghost pt = plaintext@;
    let phrase = match string_from_utf8(plaintext) {
        Some(s) => s,
        None => {
            return Err(CryptoError::VaultCorrupted(String::from_str("Decrypted content is not valid UTF-8")));
        },
    };
    Ok(split_whitespace(phrase.as_str()))
}

// ── Hardware binding ──────────────────────────────────────────────────────

/// The hardware identity the vault key is bound to, and the warning to give
/// when it is not a stable machine UUID.
#[derive(Debug)]
pub struct HardwareUuid {
    /// The identity string mixed into the storage key.
    pub id: String,
    /// Why a weaker binding was used, when it was.
    pub warning: Option<String>,
}

/// The hardware identity for the contents of the DMI product UUID file and
/// of `/etc/machine-id` (`None` when unreadable), with `random` standing in
/// when neither gives one: the trimmed DMI UUID when it is not empty, else
/// the hex SHA-256 of the trimmed machine id, else the hex of `random`.
pub open spec fn hardware_uuid_spec(
    dmi: Option<Seq<char>>,
    machine_id: Option<Seq<char>>,
    random: Seq<u8>,
) -> (Seq<char>, Option<Seq<char>>) {
    if dmi is Some && trim_ws(dmi->Some_0).len() > 0 {
        (trim_ws(dmi->Some_0), None)
    } else if machine_id is Some {
        (
            hex_chars(sha256_digest(encode_utf8(trim_ws(machine_id->Some_0)))),
            Some("DMI UUID unavailable; using machine-id hash as hardware binding"@),
        )
    } else {
        (hex_chars(random), Some("No stable hardware ID found; generating ephemeral hardware binding"@))
    }
}

/// The characters of an optional string.
pub open spec fn opt_chars(s: Option<String>) -> Option<Seq<char>> {
    match s {
        Some(x) => Some(x@),
        None => None,
    }
}

/// The hardware identity (see [`hardware_uuid_spec`]); the random stand-in,
/// when needed, comes from the operating system's generator.
pub fn hardware_uuid_from(dmi: Option<String>, machine_id: Option<String>) -> (r: HardwareUuid)
    ensures
        exists|random: Seq<u8>| random.len() == 32 && #[trigger] hardware_uuid_spec(
            opt_chars(dmi),
            opt_chars(machine_id),
            random,
        ) == (r.id@, opt_chars(r.warning)),
{
    if let Some(uuid) = &dmi {
        let trimmed = trim(uuid.as_str());
        if !trimmed.as_str().is_empty() {
            let r = HardwareUuid { id: trimmed, warning: None };
            assert(hardware_uuid_spec(Some(uuid@), opt_chars(machine_id), seq![0u8; 32]) == (r.id@, None::<Seq<char>>));
            return r;
        }
    }
    if let Some(id) = &machine_id {
        let t = trim(id.as_str());
        let hash = sha256_hash(t.as_str().as_bytes());
        let r = HardwareUuid {
            id: hex_encode(&hash),
            warning: Some(String::from_str("DMI UUID unavailable; using machine-id hash as hardware binding")),
        };
        assert(hardware_uuid_spec(opt_chars(dmi), Some(id@), seq![0u8; 32]) == (r.id@, Some(r.warning->Some_0@)));
        return r;
    }
    let bytes = os_random_bytes(32);
    let r = HardwareUuid {
        id: hex_encode(bytes.as_slice()),
        warning: Some(String::from_str("No stable hardware ID found; generating ephemeral hardware binding")),
    };
    assert(hardware_uuid_spec(opt_chars(dmi), None, bytes@) == (r.id@, Some(r.warning->Some_0@)));
    r
}

} // verus!
