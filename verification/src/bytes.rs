//! Byte-sequence helpers: concatenation, comparison and fixed-width
//! little- and big-endian integers, each with its mathematical meaning.

use vstd::prelude::*;

verus! {

/// Little-endian encoding of `v` on `n` bytes.
pub open spec fn le_bytes(v: nat, n: nat) -> Seq<u8>
    decreases n,
{
    if n == 0 {
        seq![]
    } else {
        seq![(v % 256) as u8] + le_bytes(v / 256, (n - 1) as nat)
    }
}

/// The number whose little-endian encoding is `b`.
pub open spec fn le_value(b: Seq<u8>) -> nat
    decreases b.len(),
{
    if b.len() == 0 {
        0
    } else {
        b[0] as nat + 256 * le_value(b.drop_first())
    }
}

/// Appends every byte of `s` to `out`.
pub fn append_bytes(out: &mut Vec<u8>, s: &[u8])
    ensures
        final(out)@ == old(out)@ + s@,
{
    let ghost start = out@;
    let mut i: usize = 0;
    while i < s.len()
        invariant
            i <= s@.len(),
            out@ == start + s@.subrange(0, i as int),
        decreases s@.len() - i,
    {
        out.push(s[i]);
        i = i + 1;
        assert(s@.subrange(0, i as int) == s@.subrange(0, (i - 1) as int).push(s@[i - 1]));
    }
    assert(s@.subrange(0, i as int) == s@);
}

/// Whether two byte slices hold the same bytes.
pub fn bytes_equal(a: &[u8], b: &[u8]) -> (r: bool)
    ensures
        r == (a@ == b@),
{
    if a.len() != b.len() {
        return false;
    }
    let mut i: usize = 0;
    while i < a.len()
        invariant
            a@.len() == b@.len(),
            i <= a@.len(),
            forall|j: int| 0 <= j < i ==> a@[j] == b@[j],
        decreases a@.len() - i,
    {
        if a[i] != b[i] {
            return false;
        }
        i = i + 1;
    }
    assert(a@ =~= b@);
    true
}

/// Copies a slice into a fresh vector.
pub fn to_vec(s: &[u8]) -> (v: Vec<u8>)
    ensures
        v@ == s@,
{
    let mut v: Vec<u8> = Vec::new();
    append_bytes(&mut v, s);
    v
}

/// The four little-endian bytes of a `u32`.
pub fn u32_le(v: u32) -> (r: [u8; 4])
    ensures
        r@ == le_bytes(v as nat, 4),
{
    let r = [(v & 0xff) as u8, ((v >> 8) & 0xff) as u8, ((v >> 16) & 0xff) as u8, ((v >> 24) & 0xff) as u8];
    proof {
        reveal_with_fuel(le_bytes, 5);
        assert((v & 0xff) as u8 == (v % 256) as u8) by (bit_vector);
        assert(((v >> 8) & 0xff) as u8 == ((v / 256) % 256) as u8) by (bit_vector);
        assert(((v >> 16) & 0xff) as u8 == ((v / 256 / 256) % 256) as u8) by (bit_vector);
        assert(((v >> 24) & 0xff) as u8 == ((v / 256 / 256 / 256) % 256) as u8) by (bit_vector);
    }
    assert(r@ =~= le_bytes(v as nat, 4));
    r
}

/// The 32 bytes of a 32-byte slice, as an array.
pub fn to_array32(v: &[u8]) -> (r: [u8; 32])
    requires
        v@.len() == 32,
    ensures
        r@ == v@,
{
    let mut r = [0u8; 32];
    let mut i: usize = 0;
    while i < 32
        invariant
            v@.len() == 32,
            i <= 32,
            forall|j: int| 0 <= j < i ==> r@[j] == v@[j],
        decreases 32 - i,
    {
        r[i] = v[i];
        i = i + 1;
    }
    assert(r@ =~= v@);
    r
}

/// The 64 bytes of a 64-byte slice, as an array.
pub fn to_array64(v: &[u8]) -> (r: [u8; 64])
    requires
        v@.len() == 64,
    ensures
        r@ == v@,
{
    let mut r = [0u8; 64];
    let mut i: usize = 0;
    while i < 64
        invariant
            v@.len() == 64,
            i <= 64,
            forall|j: int| 0 <= j < i ==> r@[j] == v@[j],
        decreases 64 - i,
    {
        r[i] = v[i];
        i = i + 1;
    }
    assert(r@ =~= v@);
    r
}

/// The 12 bytes of a 12-byte slice, as an array.
pub fn to_array12(v: &[u8]) -> (r: [u8; 12])
    requires
        v@.len() == 12,
    ensures
        r@ == v@,
{
    let mut r = [0u8; 12];
    let mut i: usize = 0;
    while i < 12
        invariant
            v@.len() == 12,
            i <= 12,
            forall|j: int| 0 <= j < i ==> r@[j] == v@[j],
        decreases 12 - i,
    {
        r[i] = v[i];
        i = i + 1;
    }
    assert(r@ =~= v@);
    r
}

/// The 16 bytes of a 16-byte slice, as an array.
pub fn to_array16(v: &[u8]) -> (r: [u8; 16])
    requires
        v@.len() == 16,
    ensures
        r@ == v@,
{
    let mut r = [0u8; 16];
    let mut i: usize = 0;
    while i < 16
        invariant
            v@.len() == 16,
            i <= 16,
            forall|j: int| 0 <= j < i ==> r@[j] == v@[j],
        decreases 16 - i,
    {
        r[i] = v[i];
        i = i + 1;
    }
    assert(r@ =~= v@);
    r
}

/// The 4 bytes of a 4-byte slice, as an array.
pub fn to_array4(v: &[u8]) -> (r: [u8; 4])
    requires
        v@.len() == 4,
    ensures
        r@ == v@,
{
    let mut r = [0u8; 4];
    let mut i: usize = 0;
    while i < 4
        invariant
            v@.len() == 4,
            i <= 4,
            forall|j: int| 0 <= j < i ==> r@[j] == v@[j],
        decreases 4 - i,
    {
        r[i] = v[i];
        i = i + 1;
    }
    assert(r@ =~= v@);
    r
}

/// Every byte is zero.
pub open spec fn all_zero(b: Seq<u8>) -> bool {
    forall|i: int| 0 <= i < b.len() ==> b[i] == 0
}

/// Whether every byte is zero.
pub fn is_all_zero(b: &[u8]) -> (r: bool)
    ensures
        r == all_zero(b@),
{
    let mut i: usize = 0;
    while i < b.len()
        invariant
            i <= b@.len(),
            forall|j: int| 0 <= j < i ==> b@[j] == 0,
        decreases b@.len() - i,
    {
        if b[i] != 0 {
            return false;
        }
        i = i + 1;
    }
    true
}

/// The `u32` whose little-endian bytes are the 4 bytes of `b`.
pub fn u32_from_le(b: &[u8]) -> (r: u32)
    requires
        b@.len() == 4,
    ensures
        r as nat == le_value(b@),
{
    let b0 = b[0];
    let b1 = b[1];
    let b2 = b[2];
    let b3 = b[3];
    let r = (b0 as u32) | ((b1 as u32) << 8) | ((b2 as u32) << 16) | ((b3 as u32) << 24);
    proof {
        reveal_with_fuel(le_value, 5);
        assert(b@.drop_first().drop_first().drop_first().drop_first().len() == 0);
        assert((b0 as u32) | ((b1 as u32) << 8) | ((b2 as u32) << 16) | ((b3 as u32) << 24)
            == b0 as u32 + 256 * (b1 as u32 + 256 * (b2 as u32 + 256 * (b3 as u32)))) by (bit_vector);
    }
    r
}

/// Decoding the little-endian encoding of `v` on 4 bytes gives `v` back.
pub proof fn lemma_le4_roundtrip(v: nat)
    requires
        v < 0x1_0000_0000,
    ensures
        le_value(le_bytes(v, 4)) == v,
        le_bytes(v, 4).len() == 4,
{
    reveal_with_fuel(le_bytes, 5);
    reveal_with_fuel(le_value, 5);
    let s = le_bytes(v, 4);
    assert(s.drop_first().drop_first().drop_first().drop_first().len() == 0);
}

/// The little-endian bytes of a `u64`.
pub fn u64_le(v: u64) -> (r: [u8; 8])
    ensures
        r@ == le_bytes(v as nat, 8),
{
    let mut r = [0u8; 8];
    let mut x: u64 = v;
    let mut k: usize = 0;
    while k < 8
        invariant
            k <= 8,
            le_bytes(v as nat, 8) == r@.subrange(0, k as int) + le_bytes(x as nat, (8 - k) as nat),
        decreases 8 - k,
    {
        let ghost before = r@;
        r[k] = (x % 256) as u8;
        assert(r@.subrange(0, k + 1) =~= before.subrange(0, k as int).push((x % 256) as u8));
        assert(le_bytes(x as nat, (8 - k) as nat) == seq![(x % 256) as u8] + le_bytes(
            (x / 256) as nat,
            (8 - k - 1) as nat,
        ));
        assert(before.subrange(0, k as int) + (seq![(x % 256) as u8] + le_bytes((x / 256) as nat, (8 - k - 1) as nat))
            =~= before.subrange(0, k as int).push((x % 256) as u8) + le_bytes((x / 256) as nat, (8 - k - 1) as nat));
        x = x / 256;
        k = k + 1;
    }
    assert(le_bytes(x as nat, 0) =~= Seq::<u8>::empty());
    assert(r@.subrange(0, 8) =~= r@);
    assert(r@ + Seq::<u8>::empty() =~= r@);
    r
}

/// The little-endian bytes of a `u16`.
pub fn u16_le(v: u16) -> (r: [u8; 2])
    ensures
        r@ == le_bytes(v as nat, 2),
{
    let r = [(v % 256) as u8, (v / 256) as u8];
    proof {
        reveal_with_fuel(le_bytes, 3);
    }
    assert(r@ =~= le_bytes(v as nat, 2));
    r
}

/// The `u16` whose little-endian bytes are the 2 bytes of `b`.
pub fn u16_from_le(b: &[u8]) -> (r: u16)
    requires
        b@.len() == 2,
    ensures
        r as nat == le_value(b@),
{
    proof {
        reveal_with_fuel(le_value, 3);
        assert(b@.drop_first().drop_first().len() == 0);
    }
    (b[0] as u16) + 256 * (b[1] as u16)
}

/// The `u64` whose little-endian bytes are the 8 bytes of `b`.
pub fn u64_from_le(b: &[u8]) -> (r: u64)
    requires
        b@.len() == 8,
    ensures
        r as nat == le_value(b@),
{
    let b0 = b[0] as u64;
    let b1 = b[1] as u64;
    let b2 = b[2] as u64;
    let b3 = b[3] as u64;
    let b4 = b[4] as u64;
    let b5 = b[5] as u64;
    let b6 = b[6] as u64;
    let b7 = b[7] as u64;
    let r = b0 | (b1 << 8) | (b2 << 16) | (b3 << 24) | (b4 << 32) | (b5 << 40) | (b6 << 48) | (b7 << 56);
    proof {
        reveal_with_fuel(le_value, 9);
        let s = b@;
        assert(s.drop_first().drop_first().drop_first().drop_first().drop_first().drop_first().drop_first().drop_first().len() == 0);
        assert(b0 < 256 && b1 < 256 && b2 < 256 && b3 < 256 && b4 < 256 && b5 < 256 && b6 < 256 && b7 < 256);
        assert(b0 | (b1 << 8) | (b2 << 16) | (b3 << 24) | (b4 << 32) | (b5 << 40) | (b6 << 48) | (b7 << 56)
            == b0 + 256 * (b1 + 256 * (b2 + 256 * (b3 + 256 * (b4 + 256 * (b5 + 256 * (b6 + 256 * b7)))))))
            by (bit_vector)
            requires
                b0 < 256 && b1 < 256 && b2 < 256 && b3 < 256 && b4 < 256 && b5 < 256 && b6 < 256 && b7 < 256,
        ;
    }
    r
}

/// Little-endian encoding on `n` bytes is undone by decoding, for values below `256^n`.
pub proof fn lemma_le_roundtrip(v: nat, n: nat)
    requires
        v < pow256(n),
    ensures
        le_value(le_bytes(v, n)) == v,
        le_bytes(v, n).len() == n,
    decreases n,
{
    if n > 0 {
        assert(v / 256 < pow256((n - 1) as nat)) by {
            assert(pow256(n) == 256 * pow256((n - 1) as nat));
        }
        lemma_le_roundtrip(v / 256, (n - 1) as nat);
        let s = le_bytes(v, n);
        assert(s.drop_first() =~= le_bytes(v / 256, (n - 1) as nat));
    }
}

/// Big-endian encoding of `v` on `n` bytes: the little-endian bytes reversed.
pub open spec fn be_bytes(v: nat, n: nat) -> Seq<u8> {
    le_bytes(v, n).reverse()
}

/// The number whose big-endian encoding is `b`.
pub open spec fn be_value(b: Seq<u8>) -> nat {
    le_value(b.reverse())
}

/// Big-endian encoding on `n` bytes is undone by decoding, for values below `256^n`.
pub proof fn lemma_be_roundtrip(v: nat, n: nat)
    requires
        v < pow256(n),
    ensures
        be_value(be_bytes(v, n)) == v,
        be_bytes(v, n).len() == n,
{
    lemma_le_roundtrip(v, n);
    assert(be_bytes(v, n).reverse() =~= le_bytes(v, n));
}

/// The four big-endian bytes of a `u32`.
pub fn u32_be(v: u32) -> (r: [u8; 4])
    ensures
        r@ == be_bytes(v as nat, 4),
{
    let l = u32_le(v);
    let r = [l[3], l[2], l[1], l[0]];
    assert(r@ =~= l@.reverse());
    r
}

/// The `u32` whose big-endian bytes are the 4 bytes of `b`.
pub fn u32_from_be(b: &[u8]) -> (r: u32)
    requires
        b@.len() == 4,
    ensures
        r as nat == be_value(b@),
{
    let rev = [b[3], b[2], b[1], b[0]];
    assert(rev@ =~= b@.reverse());
    u32_from_le(&rev)
}

/// `256^n`.
pub open spec fn pow256(n: nat) -> nat
    decreases n,
{
    if n == 0 {
        1
    } else {
        256 * pow256((n - 1) as nat)
    }
}

} // verus!
