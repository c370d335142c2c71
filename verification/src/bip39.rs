//! BIP-39 mnemonics and SLIP-0010 hardened Ed25519 key derivation.
//!
//! ```text
//! 24-word mnemonic
//!     └─► 64-byte master seed  (BIP-39)
//!             └─► SLIP-0010 master node  (HMAC-SHA512 keyed "ed25519 seed")
//!                     ├─► K1  m/44'/7777'/0'/0'/0'  (active signing key)
//!                     └─► K2  m/44'/7777'/0'/0'/1'  (pre-rotation key)
//! ```
//! The key of rotation N sits at index N; its pre-rotation key at N + 1.

use vstd::prelude::*;
use vstd::string::*;
use crate::error::CryptoError;
use crate::keys::SigningKey;
use crate::primitives::{hmac_sha512_tag, blake3_digest, ed25519_public, bip39_seed, bip39_phrase_valid, bip39_generate, bip39_restore, hmac_sha512, blake3_hash};

verus! {

/// Marks a hardened derivation index.
pub const HARDENED: u32 = 0x8000_0000;

/// The coin type of the derivation paths.
pub const TSC_COIN_TYPE: u32 = 7777;

/// The HMAC key of the SLIP-0010 master node: the bytes of `"ed25519 seed"`.
pub open spec fn slip10_seed_key() -> Seq<u8> {
    seq![101u8, 100, 50, 53, 53, 49, 57, 32, 115, 101, 101, 100]
}

/// Big-endian bytes of a `u32`.
pub open spec fn be32(v: u32) -> Seq<u8> {
    seq![(v >> 24) as u8, ((v >> 16) & 0xff) as u8, ((v >> 8) & 0xff) as u8, (v & 0xff) as u8]
}

/// The SLIP-0010 master node (private scalar ‖ chain code) of a seed.
pub open spec fn slip10_master(seed: Seq<u8>) -> Seq<u8> {
    hmac_sha512_tag(slip10_seed_key(), seed)
}

/// The hardened child `index` of a node:
/// `HMAC-SHA512(chain_code, 0x00 ‖ private_scalar ‖ index_be)`.
pub open spec fn slip10_child_node(parent: Seq<u8>, index: u32) -> Seq<u8> {
    hmac_sha512_tag(parent.subrange(32, 64), seq![0u8] + parent.subrange(0, 32) + be32(index))
}

/// The node at the end of `path`, starting from the master node of `seed`.
pub open spec fn slip10_node(seed: Seq<u8>, path: Seq<u32>) -> Seq<u8>
    decreases path.len(),
{
    if path.len() == 0 {
        slip10_master(seed)
    } else {
        slip10_child_node(slip10_node(seed, path.drop_last()), path.last())
    }
}

/// Every index of the path is hardened.
pub open spec fn all_hardened(path: Seq<u32>) -> bool {
    forall|i: int| 0 <= i < path.len() ==> path[i] >= HARDENED
}

/// The derivation path `m/44'/7777'/0'/0'/index'`.
pub open spec fn key_path(index: u32) -> Seq<u32> {
    seq![44 | HARDENED, TSC_COIN_TYPE | HARDENED, HARDENED, HARDENED, index | HARDENED]
}

/// The secret key at `m/44'/7777'/0'/0'/index'` of `seed`.
pub open spec fn key_at(seed: Seq<u8>, index: u32) -> Seq<u8> {
    slip10_node(seed, key_path(index)).subrange(0, 32)
}

/// The pre-rotation commitment of the key at `index`: BLAKE3 of its public key.
pub open spec fn commitment_at(seed: Seq<u8>, index: u32) -> Seq<u8> {
    blake3_digest(ed25519_public(key_at(seed, index)))
}

/// The key at `index` is the SLIP-0010 Ed25519 key at `m/44'/7777'/0'/0'/index'`:
/// starting from the master node `HMAC-SHA512("ed25519 seed", seed)`, five
/// hardened children in turn — 44', 7777', 0', 0', then `index'` — each child
/// being `HMAC-SHA512(chain code, 0x00 ‖ key ‖ child index, big-endian)`; the
/// key is the first 32 bytes of the last node. Only the last component
/// carries the index.
pub proof fn lemma_key_at_is_slip10_path(seed: Seq<u8>, index: u32)
    ensures
        ({
            let child = |p: Seq<u8>, i: u32|
                hmac_sha512_tag(
                    p.subrange(32, 64),
                    seq![0u8] + p.subrange(0, 32) + seq![
                        (i >> 24) as u8,
                        ((i >> 16) & 0xff) as u8,
                        ((i >> 8) & 0xff) as u8,
                        (i & 0xff) as u8,
                    ],
                );
            let master = hmac_sha512_tag(seq![101u8, 100, 50, 53, 53, 49, 57, 32, 115, 101, 101, 100], seed);
            key_at(seed, index) == child(
                child(child(child(child(master, 0x8000_002Cu32), 0x8000_1E61u32), 0x8000_0000u32), 0x8000_0000u32),
                index | 0x8000_0000u32,
            ).subrange(0, 32)
        }),
{
    reveal_with_fuel(slip10_node, 6);
    assert(44u32 | 0x8000_0000u32 == 0x8000_002Cu32) by (bit_vector);
    assert(7777u32 | 0x8000_0000u32 == 0x8000_1E61u32) by (bit_vector);
    let p = key_path(index);
    assert(p.drop_last().drop_last().drop_last().drop_last().drop_last() =~= Seq::<u32>::empty());
    assert(p.drop_last().drop_last().drop_last().drop_last().last() == 0x8000_002Cu32);
    assert(p.drop_last().drop_last().drop_last().last() == 0x8000_1E61u32);
    assert(p.drop_last().drop_last().last() == 0x8000_0000u32);
    assert(p.drop_last().last() == 0x8000_0000u32);
    assert(p.last() == index | 0x8000_0000u32);
}

/// Generates a fresh 24-word English mnemonic and its 64-byte master seed.
///
/// Returns `(phrase, master_seed)`.
pub fn generate_sovereign_entropy() -> (r: (String, Vec<u8>))
    ensures
        crate::primitives::bip39_phrase_valid(r.0@),
        r.1@ == bip39_seed(r.0@),
        r.1@.len() == 64,
        crate::text::split_ws(r.0@).len() == 24,
{
    bip39_generate()
}

/// Restores the 64-byte master seed from an English BIP-39 mnemonic phrase;
/// `InvalidMnemonic` exactly when the phrase is not valid BIP-39.
pub fn restore_from_phrase(phrase: &str) -> (r: Result<Vec<u8>, CryptoError>)
    ensures
        r is Ok <==> bip39_phrase_valid(phrase@),
        r matches Ok(s) ==> s@ == bip39_seed(phrase@) && s@.len() == 64,
        r matches Err(e) ==> e.kind() == crate::error::CryptoErrorKind::InvalidMnemonic,
{
    match bip39_restore(phrase) {
        Ok(seed) => Ok(seed),
        Err(msg) => Err(CryptoError::InvalidMnemonic(msg)),
    }
}

fn be32_exec(v: u32) -> (r: [u8; 4])
    ensures
        r@ == be32(v),
{
    let r = [(v >> 24) as u8, ((v >> 16) & 0xff) as u8, ((v >> 8) & 0xff) as u8, (v & 0xff) as u8];
    assert(r@ =~= be32(v));
    r
}

/// Computes one SLIP-0010 hardened child node:
/// `HMAC-SHA512(key = chain_code, data = 0x00 ‖ private_key ‖ index_be)`.
fn slip10_child(parent: &[u8; 64], index: u32) -> (r: Result<[u8; 64], CryptoError>)
    ensures
        r matches Ok(n) && n@ == slip10_child_node(parent@, index),
{
    let mut data: Vec<u8> = Vec::new();
    data.push(0u8);
    crate::bytes::append_bytes(&mut data, &parent[0..32]);
    let be = be32_exec(index);
    crate::bytes::append_bytes(&mut data, &be);
    assert(data@ =~= seq![0u8] + parent@.subrange(0, 32) + be32(index));
    match hmac_sha512(&parent[32..64], data.as_slice()) {
        Ok(n) => Ok(n),
        Err(()) => Err(CryptoError::KeyDerivation(String::from_str("HMAC-SHA512: invalid key length"))),
    }
}

/// Derives the 32-byte Ed25519 private scalar at the end of `indices`.
/// All indices must be hardened: the first one that is not is refused.
fn slip10_derive(master_seed: &[u8], indices: &[u32]) -> (r: Result<[u8; 32], CryptoError>)
    ensures
        r is Ok <==> all_hardened(indices@),
        r matches Ok(s) ==> s@ == slip10_node(master_seed@, indices@).subrange(0, 32),
        r matches Err(e) ==> e.kind() == crate::error::CryptoErrorKind::KeyDerivation,
{
    let seed_key: [u8; 12] = [101u8, 100, 50, 53, 53, 49, 57, 32, 115, 101, 101, 100];
    assert(seed_key@ =~= slip10_seed_key());
    let mut node: [u8; 64] = match hmac_sha512(&seed_key, master_seed) {
        Ok(n) => n,
        Err(()) => {
            return Err(CryptoError::KeyDerivation(String::from_str("HMAC-SHA512: invalid key length")));
        },
    };
    let mut i: usize = 0;
    assert(indices@.subrange(0, 0) =~= Seq::<u32>::empty());
    while i < indices.len()
        invariant
            i <= indices@.len(),
            node@ == slip10_node(master_seed@, indices@.subrange(0, i as int)),
            all_hardened(indices@.subrange(0, i as int)),
        decreases indices@.len() - i,
    {
        let index = indices[i];
        if index < HARDENED {
            return Err(CryptoError::KeyDerivation(
                String::from_str("Non-hardened child derivation is not permitted for Ed25519"),
            ));
        }
        node = match slip10_child(&node, index) {
            Ok(n) => n,
            Err(e) => return Err(e),
        };
        assert(indices@.subrange(0, i + 1).drop_last() =~= indices@.subrange(0, i as int));
        i = i + 1;
        assert forall|j: int| 0 <= j < i implies #[trigger] indices@.subrange(0, i as int)[j] >= HARDENED by {
            if j < i - 1 {
                assert(indices@.subrange(0, i - 1)[j] == indices@.subrange(0, i as int)[j]);
            }
        }
    }
    assert(indices@.subrange(0, i as int) =~= indices@);
    let mut scalar = [0u8; 32];
    let mut k: usize = 0;
    while k < 32
        invariant
            k <= 32,
            forall|j: int| 0 <= j < k ==> scalar@[j] == node@[j],
        decreases 32 - k,
    {
        scalar[k] = node[k];
        k = k + 1;
    }
    assert(scalar@ =~= node@.subrange(0, 32));
    Ok(scalar)
}

/// Derives the signing key at `m/44'/7777'/0'/0'/index'`.
pub fn derive_key_at_index(master_seed: &[u8], index: u32) -> (r: Result<SigningKey, CryptoError>)
    ensures
        r matches Ok(k) && k.secret@ == key_at(master_seed@, index),
{
    let path = [44 | HARDENED, TSC_COIN_TYPE | HARDENED, HARDENED, HARDENED, index | HARDENED];
    proof {
        assert(path@ =~= key_path(index));
        assert((index | 0x8000_0000u32) >= 0x8000_0000u32) by (bit_vector);
        assert((44u32 | 0x8000_0000u32) >= 0x8000_0000u32) by (bit_vector);
        assert((7777u32 | 0x8000_0000u32) >= 0x8000_0000u32) by (bit_vector);
        assert(all_hardened(path@));
    }
    match slip10_derive(master_seed, &path) {
        Ok(scalar) => Ok(SigningKey::from_bytes(&scalar)),
        Err(e) => Err(e),
    }
}

/// Derives the active signing key K1 (`m/44'/7777'/0'/0'/0'`).
pub fn derive_active_key(master_seed: &[u8]) -> (r: Result<SigningKey, CryptoError>)
    ensures
        r matches Ok(k) && k.secret@ == key_at(master_seed@, 0),
{
    derive_key_at_index(master_seed, 0)
}

/// Derives the pre-rotation key K2 (`m/44'/7777'/0'/0'/1'`).
pub fn derive_prerotation_key(master_seed: &[u8]) -> (r: Result<SigningKey, CryptoError>)
    ensures
        r matches Ok(k) && k.secret@ == key_at(master_seed@, 1),
{
    derive_key_at_index(master_seed, 1)
}

/// `BLAKE3(public key)` of the key at `m/44'/7777'/0'/0'/index'`.
pub fn commitment_at_index(master_seed: &[u8], index: u32) -> (r: Result<[u8; 32], CryptoError>)
    ensures
        r matches Ok(c) && c@ == commitment_at(master_seed@, index),
{
    let k = match derive_key_at_index(master_seed, index) {
        Ok(k) => k,
        Err(e) => return Err(e),
    };
    let public = k.verifying_key().to_bytes();
    Ok(blake3_hash(&public))
}

/// The pre-rotation commitment `BLAKE3(K2.public)` stored in the inception event.
pub fn prerotation_commitment(master_seed: &[u8]) -> (r: Result<[u8; 32], CryptoError>)
    ensures
        r matches Ok(c) && c@ == commitment_at(master_seed@, 1),
{
    commitment_at_index(master_seed, 1)
}

} // verus!
