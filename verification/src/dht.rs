//! DHT coordinate records: a node's socket address and a timestamp,
//! encrypted with AES-256-GCM under a storage key so that only peers holding
//! the key can read where a Ghost lives.
//!
//! A record is the ciphertext (its length on 8 bytes, then its bytes)
//! followed by the 12-byte nonce. The plaintext is the address (variant
//! index on 4 bytes, the IP octets, the port on 2 bytes) followed by the
//! timestamp on 8 bytes, all little-endian.

use vstd::prelude::*;
use crate::bytes::{append_bytes, le_bytes, le_value, to_array12, to_array16, to_array4, u16_from_le, u16_le, u32_from_le, u32_le};
use crate::primitives::{aes256gcm_decrypt, aes256gcm_encrypt, aes256gcm_open, aes256gcm_seal, thread_random_bytes, unix_time_secs};
use crate::wire::{bin_u64, lemma_u64_roundtrip, push_u64, read_u64, take_u64};

verus! {

/// Records older than this many seconds are ignored.
pub const MAX_RECORD_AGE_SECS: u64 = 3600;

/// An IP socket address (the wire keeps no IPv6 flow label or scope).
#[derive(Debug, Clone, Copy, PartialEq, Eq)]
pub enum SocketAddress {
    V4 { ip: [u8; 4], port: u16 },
    V6 { ip: [u8; 16], port: u16 },
}

/// A socket address as values: whether it is IPv6, its octets, its port.
pub struct AddrView {
    pub v6: bool,
    pub ip: Seq<u8>,
    pub port: u16,
}

impl SocketAddress {
    pub open spec fn view(&self) -> AddrView {
        match *self {
            SocketAddress::V4 { ip, port } => AddrView { v6: false, ip: ip@, port },
            SocketAddress::V6 { ip, port } => AddrView { v6: true, ip: ip@, port },
        }
    }
}

/// An address that a `SocketAddress` can hold.
pub open spec fn addr_ok(a: AddrView) -> bool {
    a.ip.len() == if a.v6 { 16nat } else { 4nat }
}

/// The wire bytes of an address.
pub open spec fn addr_wire(a: AddrView) -> Seq<u8> {
    le_bytes(if a.v6 { 1nat } else { 0nat }, 4) + a.ip + le_bytes(a.port as nat, 2)
}

/// Reads an address off the front of `b`.
pub open spec fn take_addr(b: Seq<u8>) -> Option<(AddrView, Seq<u8>)> {
    if b.len() < 4 {
        None
    } else {
        let tag = le_value(b.take(4));
        let r = b.skip(4);
        if tag > 1 {
            None
        } else {
            let n: int = if tag == 1 { 16 } else { 4 };
            if r.len() < n + 2 {
                None
            } else {
                Some(
                    (
                        AddrView { v6: tag == 1, ip: r.take(n), port: le_value(r.subrange(n, n + 2)) as u16 },
                        r.skip(n + 2),
                    ),
                )
            }
        }
    }
}

/// The plaintext of a coordinate record.
pub open spec fn coord_plain(a: AddrView, timestamp: u64) -> Seq<u8> {
    addr_wire(a) + bin_u64(timestamp as nat)
}

/// Reads a coordinate plaintext: the address and the timestamp; bytes after
/// them are ignored.
pub open spec fn take_coord(b: Seq<u8>) -> Option<(AddrView, u64)> {
    match take_addr(b) {
        None => None,
        Some((a, r)) => match take_u64(r) {
            None => None,
            Some((t, _)) => Some((a, t as u64)),
        },
    }
}

/// The bytes of a record holding the ciphertext `ct` and the nonce `nonce`.
pub open spec fn blob_wire(ct: Seq<u8>, nonce: Seq<u8>) -> Seq<u8> {
    bin_u64(ct.len()) + ct + nonce
}

/// Reads a record: the ciphertext and the 12-byte nonce; bytes after them
/// are ignored.
pub open spec fn take_blob(b: Seq<u8>) -> Option<(Seq<u8>, Seq<u8>)> {
    match take_u64(b) {
        None => None,
        Some((n, r)) => if r.len() < n + 12 {
            None
        } else {
            Some((r.take(n as int), r.subrange(n as int, n + 12int)))
        },
    }
}

/// The record that encrypts `a` stamped `timestamp` under `key` with `nonce`.
pub open spec fn coordinate_record(key: Seq<u8>, a: AddrView, timestamp: u64, nonce: Seq<u8>) -> Option<Seq<u8>> {
    match aes256gcm_seal(key, nonce, coord_plain(a, timestamp)) {
        None => None,
        Some(ct) => Some(blob_wire(ct, nonce)),
    }
}

/// `now - then`, or 0 when `then` is later (std's `u64::saturating_sub`).
pub open spec fn age(now: u64, then: u64) -> nat {
    if now >= then {
        (now - then) as nat
    } else {
        0
    }
}

/// What reading record bytes at time `now` gives: the address, or `None` when
/// the bytes are not a record, do not decrypt under `key`, do not hold a
/// coordinate, or the record is more than an hour old.
pub open spec fn read_record(key: Seq<u8>, b: Seq<u8>, now: u64) -> Option<AddrView> {
    match take_blob(b) {
        None => None,
        Some((ct, nonce)) => match aes256gcm_open(key, nonce, ct) {
            None => None,
            Some(pt) => match take_coord(pt) {
                None => None,
                Some((a, t)) => if age(now, t) > MAX_RECORD_AGE_SECS {
                    None
                } else {
                    Some(a)
                },
            },
        },
    }
}

/// Reading the record `r` at any time `now` gives `a` while it is at most
/// an hour older than `timestamp`, and `None` after.
pub open spec fn stamped(key: Seq<u8>, r: Seq<u8>, a: AddrView, timestamp: u64) -> bool {
    forall|now: u64| #[trigger] read_record(key, r, now) == if age(now, timestamp) > MAX_RECORD_AGE_SECS {
        None
    } else {
        Some(a)
    }
}

/// `r` is what reading the record bytes `b` at time `now` gives.
pub open spec fn read_result(key: Seq<u8>, b: Seq<u8>, now: u64, r: Option<SocketAddress>) -> bool {
    match read_record(key, b, now) {
        None => r is None,
        Some(a) => r matches Some(x) && x.view() == a,
    }
}

fn push_addr(out: &mut Vec<u8>, a: &SocketAddress)
    ensures
        final(out)@ == old(out)@ + addr_wire(a.view()),
{
    match a {
        SocketAddress::V4 { ip, port } => {
            append_bytes(out, &u32_le(0));
            append_bytes(out, ip);
            append_bytes(out, &u16_le(*port));
        },
        SocketAddress::V6 { ip, port } => {
            append_bytes(out, &u32_le(1));
            append_bytes(out, ip);
            append_bytes(out, &u16_le(*port));
        },
    }
    assert(final(out)@ =~= old(out)@ + addr_wire(a.view()));
}

fn read_addr(b: &[u8], pos: usize) -> (r: Option<(SocketAddress, usize)>)
    requires
        pos <= b@.len(),
    ensures
        match take_addr(b@.skip(pos as int)) {
            None => r is None,
            Some((a, rest)) => r matches Some((x, p)) && x.view() == a && pos <= p <= b@.len()
                && b@.skip(p as int) == rest,
        },
{
    let ghost s = b@.skip(pos as int);
    if b.len() - pos < 4 {
        return None;
    }
    let tag = u32_from_le(&b[pos..pos + 4]);
    assert(b@.subrange(pos as int, pos + 4) =~= s.take(4));
    let p = pos + 4;
    assert(b@.skip(p as int) =~= s.skip(4));
    if tag > 1 {
        return None;
    }
    let n: usize = if tag == 1 { 16 } else { 4 };
    if b.len() - p < n + 2 {
        return None;
    }
    let port = u16_from_le(&b[p + n..p + n + 2]);
    assert(b@.subrange(p + n, p + n + 2) =~= s.skip(4).subrange(n as int, n + 2));
    assert(b@.skip(p + n + 2) =~= s.skip(4).skip(n + 2));
    assert(b@.subrange(p as int, p + n) =~= s.skip(4).take(n as int));
    let a = if tag == 1 {
        SocketAddress::V6 { ip: to_array16(&b[p..p + n]), port }
    } else {
        SocketAddress::V4 { ip: to_array4(&b[p..p + n]), port }
    };
    Some((a, p + n + 2))
}

/// The plaintext of a coordinate record for `addr` stamped `timestamp`.
fn coordinate_plaintext(addr: &SocketAddress, timestamp: u64) -> (r: Vec<u8>)
    ensures
        r@ == coord_plain(addr.view(), timestamp),
{
    let mut out: Vec<u8> = Vec::new();
    push_addr(&mut out, addr);
    push_u64(&mut out, timestamp);
    assert(out@ =~= coord_plain(addr.view(), timestamp));
    out
}

fn read_coordinate(pt: &[u8]) -> (r: Option<(SocketAddress, u64)>)
    ensures
        match take_coord(pt@) {
            None => r is None,
            Some((a, t)) => r matches Some((x, u)) && x.view() == a && u == t,
        },
{
    assert(pt@.skip(0) =~= pt@);
    let (a, p) = match read_addr(pt, 0) {
        None => return None,
        Some(x) => x,
    };
    match read_u64(pt, p) {
        None => None,
        Some((t, _)) => Some((a, t)),
    }
}

/// An encrypted coordinate record as stored in the DHT.
#[derive(Debug, Clone)]
pub struct CoordinateBlob {
    /// The encrypted address and timestamp.
    pub encrypted_data: Vec<u8>,
    /// The AES-GCM nonce.
    pub nonce: [u8; 12],
}

impl CoordinateBlob {
    /// The record's bytes.
    pub fn to_bytes(&self) -> (r: Vec<u8>)
        ensures
            r@ == blob_wire(self.encrypted_data@, self.nonce@),
    {
        let mut out: Vec<u8> = Vec::new();
        push_u64(&mut out, self.encrypted_data.len() as u64);
        append_bytes(&mut out, self.encrypted_data.as_slice());
        append_bytes(&mut out, &self.nonce);
        assert(out@ =~= blob_wire(self.encrypted_data@, self.nonce@));
        out
    }

    /// Reads a record from bytes; `None` when they do not hold one.
    pub fn from_bytes(b: &[u8]) -> (r: Option<Self>)
        ensures
            match take_blob(b@) {
                None => r is None,
                Some((ct, nonce)) => r matches Some(x) && x.encrypted_data@ == ct && x.nonce@ == nonce,
            },
    {
        assert(b@.skip(0) =~= b@);
        let (n, p) = match read_u64(b, 0) {
            None => return None,
            Some(x) => x,
        };
        if ((b.len() - p) as u64) < n || (((b.len() - p) as u64) - n) < 12 {
            return None;
        }
        let end = p + n as usize;
        let ct = crate::bytes::to_vec(&b[p..end]);
        let nonce = to_array12(&b[end..end + 12]);
        assert(ct@ =~= b@.skip(8).take(n as int));
        assert(nonce@ =~= b@.skip(8).subrange(n as int, n + 12));
        Some(CoordinateBlob { encrypted_data: ct, nonce })
    }
}

/// Encodes and decodes the DHT records of one Ghost.
#[derive(Debug, Clone)]
pub struct GhostDiscovery {
    /// The local GhostID.
    pub local_id: String,
    /// The key that records are encrypted under.
    pub storage_key: [u8; 32],
}

impl GhostDiscovery {
    /// Discovery for the given GhostID and storage key.
    pub fn new(local_id: String, storage_key: [u8; 32]) -> (r: Self)
        ensures
            r.local_id@ == local_id@,
            r.storage_key == storage_key,
    {
        GhostDiscovery { local_id, storage_key }
    }

    /// The record that encrypts `addr` stamped `timestamp` with `nonce`.
    /// Reading it back gives `addr` for an hour after `timestamp`.
    pub fn encode_coordinate_at(&self, addr: &SocketAddress, timestamp: u64, nonce: [u8; 12]) -> (r: Vec<u8>)
        ensures
            coordinate_record(self.storage_key@, addr.view(), timestamp, nonce@) == Some(r@),
            stamped(self.storage_key@, r@, addr.view(), timestamp),
    {
        let pt = coordinate_plaintext(addr, timestamp);
        proof {
            assert(coord_plain(addr.view(), timestamp).len() <= 30) by {
                assert(addr_wire(addr.view()).len() <= 22) by {
                    reveal_with_fuel(le_bytes, 5);
                }
                reveal_with_fuel(le_bytes, 9);
            }
        }
        let ct = match aes256gcm_encrypt(&self.storage_key, &nonce, pt.as_slice()) {
            Some(c) => c,
            None => {
                assert(false);
                Vec::new()
            },
        };
        let blob = CoordinateBlob { encrypted_data: ct, nonce };
        let r = blob.to_bytes();
        proof {
            lemma_blob_roundtrip(ct@, nonce@);
            lemma_coord_roundtrip(addr.view(), timestamp);
        }
        r
    }

    /// Encrypts `addr`, stamped with the current time, under a fresh random
    /// nonce; `None` when the system clock reads before the Unix epoch.
    pub fn encode_coordinate(&self, addr: &SocketAddress) -> (r: Option<Vec<u8>>)
        ensures
            r matches Some(v) ==> exists|t: u64, nonce: Seq<u8>|
                nonce.len() == 12 && #[trigger] coordinate_record(self.storage_key@, addr.view(), t, nonce)
                    == Some(v@) && stamped(self.storage_key@, v@, addr.view(), t),
    {
        let timestamp = match unix_time_secs() {
            Some(t) => t,
            None => return None,
        };
        let nv = thread_random_bytes(12);
        let nonce = to_array12(nv.as_slice());
        let r = self.encode_coordinate_at(addr, timestamp, nonce);
        assert(stamped(self.storage_key@, r@, addr.view(), timestamp));
        Some(r)
    }

    /// The address in record bytes read at time `now`, or `None` (see [`read_record`]).
    pub fn decode_coordinate_at(&self, bytes: &[u8], now: u64) -> (r: Option<SocketAddress>)
        ensures
            read_result(self.storage_key@, bytes@, now, r),
    {
        let blob = match CoordinateBlob::from_bytes(bytes) {
            None => return None,
            Some(b) => b,
        };
        let pt = match aes256gcm_decrypt(&self.storage_key, &blob.nonce, blob.encrypted_data.as_slice()) {
            None => return None,
            Some(p) => p,
        };
        let (addr, t) = match read_coordinate(pt.as_slice()) {
            None => return None,
            Some(x) => x,
        };
        if now.saturating_sub(t) > MAX_RECORD_AGE_SECS {
            return None;
        }
        Some(addr)
    }

    /// The address in record bytes read now (the time counts as 0 when the
    /// system clock reads before the Unix epoch), or `None`.
    pub fn decode_coordinate(&self, bytes: &[u8]) -> (r: Option<SocketAddress>)
        ensures
            exists|now: u64| #[trigger] read_result(self.storage_key@, bytes@, now, r),
    {
        let now = match unix_time_secs() {
            Some(t) => t,
            None => 0,
        };
        let r = self.decode_coordinate_at(bytes, now);
        assert(read_result(self.storage_key@, bytes@, now, r));
        r
    }
}

/// Reading the bytes of a record gives back its ciphertext and nonce.
pub proof fn lemma_blob_roundtrip(ct: Seq<u8>, nonce: Seq<u8>)
    requires
        ct.len() < 0x1_0000_0000_0000_0000,
        nonce.len() == 12,
    ensures
        take_blob(blob_wire(ct, nonce)) == Some((ct, nonce)),
{
    lemma_u64_roundtrip(ct.len(), ct + nonce);
    assert(blob_wire(ct, nonce) =~= bin_u64(ct.len()) + (ct + nonce));
    assert((ct + nonce).take(ct.len() as int) =~= ct);
    assert((ct + nonce).subrange(ct.len() as int, ct.len() + 12int) =~= nonce);
}

/// A coordinate's plaintext is the bincode 1.x encoding of the address and
/// the timestamp: the `SocketAddr` variant index as a little-endian `u32` —
/// `0` for IPv4, `1` for IPv6 — then the octets, the port low byte first,
/// then the timestamp as a little-endian `u64`; and bytes of that layout,
/// whoever wrote them and whatever follows, read back as that address and
/// timestamp.
pub proof fn lemma_coord_plain_is_bincode(a: AddrView, t: u64, rest: Seq<u8>)
    requires
        addr_ok(a),
    ensures
        ({
            let variant = if a.v6 { seq![1u8, 0, 0, 0] } else { seq![0u8, 0, 0, 0] };
            let layout = variant + a.ip + seq![(a.port % 256) as u8, (a.port / 256) as u8] + bin_u64(t as nat);
            &&& coord_plain(a, t) == layout
            &&& bin_u64(t as nat).len() == 8
            &&& bin_u64(t as nat)[0] == (t % 256) as u8
            &&& bin_u64(t as nat)[7] == (t / 0x100_0000_0000_0000) as u8
            &&& take_coord(layout + rest) == Some((a, t))
        }),
{
    assert(bin_u64(t as nat).len() == 8 && bin_u64(t as nat)[0] == (t % 256) as u8
        && bin_u64(t as nat)[7] == (t / 0x100_0000_0000_0000) as u8) by {
        reveal_with_fuel(le_bytes, 9);
        assert(t / 256 / 256 / 256 / 256 / 256 / 256 / 256 == t / 0x100_0000_0000_0000);
        assert(t / 0x100_0000_0000_0000 < 256);
    }
    let variant = if a.v6 { seq![1u8, 0, 0, 0] } else { seq![0u8, 0, 0, 0] };
    let pb = seq![(a.port % 256) as u8, (a.port / 256) as u8];
    let layout = variant + a.ip + pb + bin_u64(t as nat);
    let index: nat = if a.v6 { 1 } else { 0 };
    assert(le_bytes(index, 4) =~= variant) by {
        reveal_with_fuel(le_bytes, 5);
    }
    assert(le_bytes(a.port as nat, 2) =~= pb) by {
        reveal_with_fuel(le_bytes, 3);
    }
    assert(coord_plain(a, t) =~= layout);
    let b = layout + rest;
    let n: int = if a.v6 { 16 } else { 4 };
    assert(le_value(variant) == index) by {
        reveal_with_fuel(le_value, 5);
        assert(variant.drop_first().drop_first().drop_first().drop_first().len() == 0);
    }
    assert(b.take(4) =~= variant);
    let r = b.skip(4);
    assert(r.take(n) =~= a.ip);
    assert(r.subrange(n, n + 2) =~= pb);
    assert(le_value(pb) == a.port) by {
        reveal_with_fuel(le_value, 3);
        assert(pb.drop_first().drop_first().len() == 0);
    }
    assert(r.skip(n + 2) =~= bin_u64(t as nat) + rest);
    lemma_u64_roundtrip(t as nat, rest);
}

/// Reading the plaintext of a coordinate gives back its address and timestamp.
pub proof fn lemma_coord_roundtrip(a: AddrView, timestamp: u64)
    requires
        addr_ok(a),
    ensures
        take_coord(coord_plain(a, timestamp)) == Some((a, timestamp)),
{
    let tag: nat = if a.v6 { 1 } else { 0 };
    let rest = a.ip + le_bytes(a.port as nat, 2) + bin_u64(timestamp as nat);
    let b = coord_plain(a, timestamp);
    assert(b =~= le_bytes(tag, 4) + rest);
    crate::bytes::lemma_le4_roundtrip(tag);
    assert(b.take(4) =~= le_bytes(tag, 4));
    assert(b.skip(4) =~= rest);
    let n: int = if a.v6 { 16 } else { 4 };
    assert(le_bytes(a.port as nat, 2).len() == 2) by {
        reveal_with_fuel(le_bytes, 3);
    }
    assert(rest.take(n) =~= a.ip);
    assert(rest.subrange(n, n + 2) =~= le_bytes(a.port as nat, 2));
    assert(le_value(le_bytes(a.port as nat, 2)) == a.port) by {
        reveal_with_fuel(le_bytes, 3);
        reveal_with_fuel(le_value, 3);
        let s = le_bytes(a.port as nat, 2);
        assert(s.drop_first().drop_first().len() == 0);
    }
    assert(rest.skip(n + 2) =~= bin_u64(timestamp as nat));
    lemma_u64_roundtrip(timestamp as nat, seq![]);
    assert(bin_u64(timestamp as nat) + Seq::<u8>::empty() =~= bin_u64(timestamp as nat));
}

} // verus!
