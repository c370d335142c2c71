//! The compact binary layout that peers exchange (fixed-width little-endian
//! integers; a string is its UTF-8 byte count on 8 bytes followed by the
//! bytes; a list is its element count on 8 bytes followed by the elements).
//!
//! Readers take a position into a byte slice and give back the value and the
//! position after it; bytes after a complete value are left alone.

use vstd::prelude::*;
use vstd::string::*;
use vstd::utf8::*;
use crate::bytes::{append_bytes, le_bytes, le_value, lemma_le_roundtrip, pow256, u64_from_le, u64_le};
use crate::text::{string_from_utf8, views};

verus! {

broadcast use vstd::utf8::group_utf8_lib;

/// An unsigned integer on 8 bytes.
pub open spec fn bin_u64(v: nat) -> Seq<u8> {
    le_bytes(v, 8)
}

/// A string: its UTF-8 byte count, then its UTF-8 bytes.
pub open spec fn bin_str(s: Seq<char>) -> Seq<u8> {
    bin_u64(encode_utf8(s).len()) + encode_utf8(s)
}

/// The strings one after the other.
pub open spec fn bin_strs(ws: Seq<Seq<char>>) -> Seq<u8>
    decreases ws.len(),
{
    if ws.len() == 0 {
        seq![]
    } else {
        bin_str(ws[0]) + bin_strs(ws.drop_first())
    }
}

/// A list of strings: its length, then the strings.
pub open spec fn bin_str_list(ws: Seq<Seq<char>>) -> Seq<u8> {
    bin_u64(ws.len()) + bin_strs(ws)
}

/// Reads an 8-byte integer off the front of `b`.
pub open spec fn take_u64(b: Seq<u8>) -> Option<(nat, Seq<u8>)> {
    if b.len() < 8 {
        None
    } else {
        Some((le_value(b.take(8)), b.skip(8)))
    }
}

/// Reads one byte off the front of `b`.
pub open spec fn take_u8(b: Seq<u8>) -> Option<(u8, Seq<u8>)> {
    if b.len() < 1 {
        None
    } else {
        Some((b[0], b.skip(1)))
    }
}

/// Reads a string off the front of `b`; `None` when the bytes run out or
/// are not UTF-8.
pub open spec fn take_str(b: Seq<u8>) -> Option<(Seq<char>, Seq<u8>)> {
    match take_u64(b) {
        None => None,
        Some((n, r)) => if r.len() < n || !valid_utf8(r.take(n as int)) {
            None
        } else {
            Some((decode_utf8(r.take(n as int)), r.skip(n as int)))
        },
    }
}

/// Reads `n` strings off the front of `b`.
pub open spec fn take_strs(b: Seq<u8>, n: nat) -> Option<(Seq<Seq<char>>, Seq<u8>)>
    decreases n,
{
    if n == 0 {
        Some((seq![], b))
    } else {
        match take_str(b) {
            None => None,
            Some((s, r)) => match take_strs(r, (n - 1) as nat) {
                None => None,
                Some((ss, r2)) => Some((seq![s] + ss, r2)),
            },
        }
    }
}

/// Reads a list of strings off the front of `b`.
pub open spec fn take_str_list(b: Seq<u8>) -> Option<(Seq<Seq<char>>, Seq<u8>)> {
    match take_u64(b) {
        None => None,
        Some((n, r)) => take_strs(r, n),
    }
}

/// Reading an integer that was written gives it back.
pub proof fn lemma_u64_roundtrip(v: nat, rest: Seq<u8>)
    requires
        v < 0x1_0000_0000_0000_0000,
    ensures
        take_u64(bin_u64(v) + rest) == Some((v, rest)),
{
    assert(pow256(8) == 0x1_0000_0000_0000_0000) by {
        reveal_with_fuel(pow256, 9);
    }
    lemma_le_roundtrip(v, 8);
    let b = bin_u64(v) + rest;
    assert(b.take(8) =~= bin_u64(v));
    assert(b.skip(8) =~= rest);
}

/// Reading a string that was written gives it back.
pub proof fn lemma_str_roundtrip(s: Seq<char>, rest: Seq<u8>)
    requires
        encode_utf8(s).len() < 0x1_0000_0000_0000_0000,
    ensures
        take_str(bin_str(s) + rest) == Some((s, rest)),
{
    let e = encode_utf8(s);
    let b = bin_str(s) + rest;
    assert(b =~= bin_u64(e.len()) + (e + rest));
    lemma_u64_roundtrip(e.len(), e + rest);
    assert((e + rest).take(e.len() as int) =~= e);
    assert((e + rest).skip(e.len() as int) =~= rest);
}

/// Reading strings that were written gives them back.
pub proof fn lemma_strs_roundtrip(ws: Seq<Seq<char>>, rest: Seq<u8>)
    requires
        forall|i: int| 0 <= i < ws.len() ==> encode_utf8(#[trigger] ws[i]).len() < 0x1_0000_0000_0000_0000,
    ensures
        take_strs(bin_strs(ws) + rest, ws.len()) == Some((ws, rest)),
    decreases ws.len(),
{
    if ws.len() > 0 {
        let tail = ws.drop_first();
        assert forall|i: int| 0 <= i < tail.len() implies encode_utf8(#[trigger] tail[i]).len()
            < 0x1_0000_0000_0000_0000 by {
            assert(tail[i] == ws[i + 1]);
        }
        lemma_strs_roundtrip(tail, rest);
        assert(bin_strs(ws) + rest =~= bin_str(ws[0]) + (bin_strs(tail) + rest));
        lemma_str_roundtrip(ws[0], bin_strs(tail) + rest);
        assert(seq![ws[0]] + tail =~= ws);
    }
}

/// Reading a list of strings that was written gives it back.
pub proof fn lemma_str_list_roundtrip(ws: Seq<Seq<char>>, rest: Seq<u8>)
    requires
        ws.len() < 0x1_0000_0000_0000_0000,
        forall|i: int| 0 <= i < ws.len() ==> encode_utf8(#[trigger] ws[i]).len() < 0x1_0000_0000_0000_0000,
    ensures
        take_str_list(bin_str_list(ws) + rest) == Some((ws, rest)),
{
    assert(bin_str_list(ws) + rest =~= bin_u64(ws.len()) + (bin_strs(ws) + rest));
    lemma_u64_roundtrip(ws.len(), bin_strs(ws) + rest);
    lemma_strs_roundtrip(ws, rest);
}

/// Appends an 8-byte integer.
pub fn push_u64(out: &mut Vec<u8>, v: u64)
    ensures
        final(out)@ == old(out)@ + bin_u64(v as nat),
{
    let b = u64_le(v);
    append_bytes(out, &b);
}

/// Appends a string.
pub fn push_str(out: &mut Vec<u8>, s: &str)
    ensures
        final(out)@ == old(out)@ + bin_str(s@),
{
    let bytes = s.as_bytes();
    push_u64(out, bytes.len() as u64);
    append_bytes(out, bytes);
    assert(final(out)@ =~= old(out)@ + bin_str(s@));
}

/// Appends a list of strings.
pub fn push_str_list(out: &mut Vec<u8>, ws: &[String])
    ensures
        final(out)@ == old(out)@ + bin_str_list(views(ws@)),
{
    let ghost start = out@;
    push_u64(out, ws.len() as u64);
    let ghost head = out@;
    let mut i: usize = 0;
    while i < ws.len()
        invariant
            i <= ws@.len(),
            head == start + bin_u64(ws@.len() as nat),
            out@ == head + bin_strs(views(ws@.subrange(0, i as int))),
        decreases ws@.len() - i,
    {
        proof {
            lemma_bin_strs_push(views(ws@.subrange(0, i as int)), ws@[i as int]@);
            assert(views(ws@.subrange(0, i + 1)) =~= views(ws@.subrange(0, i as int)).push(ws@[i as int]@));
        }
        push_str(out, ws[i].as_str());
        i = i + 1;
    }
    assert(ws@.subrange(0, i as int) =~= ws@);
    assert(views(ws@).len() == ws@.len());
}

proof fn lemma_bin_strs_push(ws: Seq<Seq<char>>, w: Seq<char>)
    ensures
        bin_strs(ws.push(w)) == bin_strs(ws) + bin_str(w),
    decreases ws.len(),
{
    if ws.len() == 0 {
        assert(ws.push(w).drop_first() =~= Seq::<Seq<char>>::empty());
        assert(ws.push(w)[0] == w);
        assert(bin_strs(Seq::<Seq<char>>::empty()) == Seq::<u8>::empty());
        assert(bin_strs(ws.push(w)) =~= bin_str(w) + Seq::<u8>::empty());
        assert(bin_strs(ws) + bin_str(w) =~= bin_str(w));
    } else {
        lemma_bin_strs_push(ws.drop_first(), w);
        assert(ws.push(w).drop_first() =~= ws.drop_first().push(w));
        assert(bin_str(ws[0]) + (bin_strs(ws.drop_first()) + bin_str(w)) =~= bin_str(ws[0])
            + bin_strs(ws.drop_first()) + bin_str(w));
    }
}

/// Reads an 8-byte integer at `pos`.
pub fn read_u64(b: &[u8], pos: usize) -> (r: Option<(u64, usize)>)
    requires
        pos <= b@.len(),
    ensures
        match take_u64(b@.skip(pos as int)) {
            None => r is None,
            Some((v, rest)) => r matches Some((x, p)) && x as nat == v && pos <= p <= b@.len()
                && b@.skip(p as int) == rest,
        },
{
    if b.len() - pos < 8 {
        return None;
    }
    let x = u64_from_le(&b[pos..pos + 8]);
    proof {
        assert(b@.subrange(pos as int, pos + 8) =~= b@.skip(pos as int).take(8));
        assert(b@.skip(pos + 8) =~= b@.skip(pos as int).skip(8));
    }
    Some((x, pos + 8))
}

/// Reads one byte at `pos`.
pub fn read_u8(b: &[u8], pos: usize) -> (r: Option<(u8, usize)>)
    requires
        pos <= b@.len(),
    ensures
        match take_u8(b@.skip(pos as int)) {
            None => r is None,
            Some((v, rest)) => r matches Some((x, p)) && x == v && pos <= p <= b@.len()
                && b@.skip(p as int) == rest,
        },
{
    if b.len() - pos < 1 {
        return None;
    }
    proof {
        assert(b@.skip(pos + 1) =~= b@.skip(pos as int).skip(1));
    }
    Some((b[pos], pos + 1))
}

/// Reads a string at `pos`.
pub fn read_str(b: &[u8], pos: usize) -> (r: Option<(String, usize)>)
    requires
        pos <= b@.len(),
    ensures
        match take_str(b@.skip(pos as int)) {
            None => r is None,
            Some((v, rest)) => r matches Some((x, p)) && x@ == v && pos <= p <= b@.len()
                && b@.skip(p as int) == rest,
        },
{
    let (n, p) = match read_u64(b, pos) {
        None => return None,
        Some(t) => t,
    };
    if ((b.len() - p) as u64) < n {
        return None;
    }
    let end = p + n as usize;
    let bytes = crate::bytes::to_vec(&b[p..end]);
    proof {
        assert(bytes@ =~= b@.skip(pos as int).skip(8).take(n as int));
        assert(b@.skip(end as int) =~= b@.skip(pos as int).skip(8).skip(n as int));
    }
    match string_from_utf8(bytes) {
        None => None,
        Some(s) => Some((s, end)),
    }
}

/// Reads a list of strings at `pos`.
pub fn read_str_list(b: &[u8], pos: usize) -> (r: Option<(Vec<String>, usize)>)
    requires
        pos <= b@.len(),
    ensures
        match take_str_list(b@.skip(pos as int)) {
            None => r is None,
            Some((v, rest)) => r matches Some((x, p)) && views(x@) == v && pos <= p <= b@.len()
                && b@.skip(p as int) == rest,
        },
{
    let (n, p0) = match read_u64(b, pos) {
        None => return None,
        Some(t) => t,
    };
    let ghost whole = take_str_list(b@.skip(pos as int));
    let mut out: Vec<String> = Vec::new();
    let mut p = p0;
    let mut i: u64 = 0;
    while i < n
        invariant
            pos <= p <= b@.len(),
            i <= n,
            whole == take_str_list(b@.skip(pos as int)),
            whole == match take_strs(b@.skip(p as int), (n - i) as nat) {
                None => None,
                Some((ss, r)) => Some((views(out@) + ss, r)),
            },
        decreases n - i,
    {
        let ghost rest = b@.skip(p as int);
        match read_str(b, p) {
            None => {
                return None;
            },
            Some((s, p2)) => {
                proof {
                    let tail = take_strs(b@.skip(p2 as int), (n - i - 1) as nat);
                    assert(views(out@.push(s)) =~= views(out@) + seq![s@]);
                    match tail {
                        None => {},
                        Some((ss, r2)) => {
                            assert(views(out@) + (seq![s@] + ss) =~= views(out@) + seq![s@] + ss);
                        },
                    }
                }
                out.push(s);
                p = p2;
            },
        }
        i = i + 1;
    }
    assert(views(out@) + Seq::<Seq<char>>::empty() =~= views(out@));
    Some((out, p))
}

} // verus!
