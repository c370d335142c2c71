//! The pieces of canonical JSON text for key events (RFC 8785): members
//! written in the order the caller gives (key events list them sorted), no
//! white space, strings escaped with `\"`, `\\`, `\b`, `\f`, `\n`, `\r`,
//! `\t` and `\u00xx` (lowercase) for the other control bytes, every other
//! byte copied.

use vstd::prelude::*;
use crate::bytes::append_bytes;
use crate::encoding::hex_digit;
use crate::text::views;
use vstd::string::*;

verus! {

/// The JSON escape of one UTF-8 byte of a string.
pub open spec fn json_escape_byte(b: u8) -> Seq<u8> {
    if b == 34 {
        seq![92u8, 34]
    } else if b == 92 {
        seq![92u8, 92]
    } else if b == 8 {
        seq![92u8, 98]
    } else if b == 12 {
        seq![92u8, 102]
    } else if b == 10 {
        seq![92u8, 110]
    } else if b == 13 {
        seq![92u8, 114]
    } else if b == 9 {
        seq![92u8, 116]
    } else if b < 32 {
        seq![92u8, 117, 48, 48, hex_digit(b >> 4), hex_digit(b & 15)]
    } else {
        seq![b]
    }
}

/// The JSON escape of a byte string.
pub open spec fn json_escape(b: Seq<u8>) -> Seq<u8>
    decreases b.len(),
{
    if b.len() == 0 {
        seq![]
    } else {
        json_escape(b.drop_last()) + json_escape_byte(b.last())
    }
}

/// A JSON string literal holding the given UTF-8 bytes.
pub open spec fn json_string(b: Seq<u8>) -> Seq<u8> {
    seq![34u8] + json_escape(b) + seq![34u8]
}

/// A JSON string literal holding the given characters.
pub open spec fn json_str(s: Seq<char>) -> Seq<u8> {
    json_string(vstd::utf8::encode_utf8(s))
}

/// Decimal digits of `n`, without leading zeros.
pub open spec fn decimal(n: nat) -> Seq<u8>
    decreases n,
{
    if n < 10 {
        seq![(48 + n) as u8]
    } else {
        decimal(n / 10) + seq![(48 + n % 10) as u8]
    }
}

/// The comma-separated JSON string literals of `ws`, without brackets.
pub open spec fn json_str_items(ws: Seq<Seq<char>>) -> Seq<u8>
    decreases ws.len(),
{
    if ws.len() == 0 {
        seq![]
    } else if ws.len() == 1 {
        json_str(ws[0])
    } else {
        json_str_items(ws.drop_last()) + seq![44u8] + json_str(ws.last())
    }
}

/// A JSON array of string literals.
pub open spec fn json_str_array(ws: Seq<Seq<char>>) -> Seq<u8> {
    seq![91u8] + json_str_items(ws) + seq![93u8]
}

/// The text that opens an object member called `name`: `{"name":` for the
/// first member, `,"name":` for the others.
pub open spec fn json_member(name: Seq<u8>, first: bool) -> Seq<u8> {
    seq![if first { 123u8 } else { 44u8 }, 34u8] + name + seq![34u8, 58u8]
}

fn hex_digit_exec(v: u8) -> (r: u8)
    requires
        v < 16,
    ensures
        r == hex_digit(v),
{
    if v < 10 {
        48 + v
    } else {
        87 + v
    }
}

/// Appends the escape of one byte.
fn push_escaped_byte(out: &mut Vec<u8>, b: u8)
    ensures
        final(out)@ == old(out)@ + json_escape_byte(b),
{
    let ghost start = out@;
    if b == 34 {
        out.push(92);
        out.push(34);
    } else if b == 92 {
        out.push(92);
        out.push(92);
    } else if b == 8 {
        out.push(92);
        out.push(98);
    } else if b == 12 {
        out.push(92);
        out.push(102);
    } else if b == 10 {
        out.push(92);
        out.push(110);
    } else if b == 13 {
        out.push(92);
        out.push(114);
    } else if b == 9 {
        out.push(92);
        out.push(116);
    } else if b < 32 {
        assert(b >> 4 < 16 && b & 15 < 16) by (bit_vector);
        out.push(92);
        out.push(117);
        out.push(48);
        out.push(48);
        out.push(hex_digit_exec(b >> 4));
        out.push(hex_digit_exec(b & 15));
    } else {
        out.push(b);
    }
    assert(out@ =~= start + json_escape_byte(b));
}

/// Appends the JSON string literal of the given characters.
pub fn push_json_str(out: &mut Vec<u8>, s: &str)
    ensures
        final(out)@ == old(out)@ + json_str(s@),
{
    let b = s.as_bytes();
    let ghost start = out@;
    out.push(34);
    let mut i: usize = 0;
    while i < b.len()
        invariant
            b@ == s.spec_bytes(),
            i <= b@.len(),
            out@ == start + seq![34u8] + json_escape(b@.subrange(0, i as int)),
        decreases b@.len() - i,
    {
        assert(b@.subrange(0, i + 1).drop_last() =~= b@.subrange(0, i as int));
        push_escaped_byte(out, b[i]);
        i = i + 1;
        assert(out@ =~= start + seq![34u8] + json_escape(b@.subrange(0, i as int)));
    }
    assert(b@.subrange(0, i as int) =~= b@);
    out.push(34);
    assert(out@ =~= start + json_str(s@));
}

/// Appends the decimal digits of `n`.
pub fn push_decimal(out: &mut Vec<u8>, n: u64)
    ensures
        final(out)@ == old(out)@ + decimal(n as nat),
    decreases n,
{
    let ghost start = out@;
    if n >= 10 {
        push_decimal(out, n / 10);
    }
    out.push(48 + (n % 10) as u8);
    assert(out@ =~= start + decimal(n as nat));
}

/// Appends a JSON array of the strings' literals.
pub fn push_json_str_array(out: &mut Vec<u8>, ws: &[String])
    ensures
        final(out)@ == old(out)@ + json_str_array(views(ws@)),
{
    let ghost start = out@;
    out.push(91);
    let mut i: usize = 0;
    while i < ws.len()
        invariant
            i <= ws@.len(),
            out@ == start + seq![91u8] + json_str_items(views(ws@.subrange(0, i as int))),
        decreases ws@.len() - i,
    {
        let ghost before = out@;
        let ghost pre = views(ws@.subrange(0, i as int));
        assert(views(ws@.subrange(0, i + 1)) =~= pre.push(ws@[i as int]@));
        assert(views(ws@.subrange(0, i + 1)).drop_last() =~= pre);
        if i > 0 {
            out.push(44);
        }
        push_json_str(out, ws[i].as_str());
        i = i + 1;
        proof {
            if i == 1 {
                assert(pre.len() == 0);
                assert(out@ =~= start + seq![91u8] + json_str_items(views(ws@.subrange(0, i as int))));
            } else {
                assert(out@ =~= start + seq![91u8] + json_str_items(views(ws@.subrange(0, i as int))));
            }
        }
    }
    assert(ws@.subrange(0, i as int) =~= ws@);
    out.push(93);
    assert(out@ =~= start + json_str_array(views(ws@)));
}

/// Appends the opening of an object member called `name`.
pub fn push_member(out: &mut Vec<u8>, name: &[u8], first: bool)
    ensures
        final(out)@ == old(out)@ + json_member(name@, first),
{
    let ghost start = out@;
    out.push(if first { 123u8 } else { 44u8 });
    out.push(34);
    append_bytes(out, name);
    out.push(34);
    out.push(58);
    assert(out@ =~= start + json_member(name@, first));
}

/// Appends an empty JSON string literal, `""`.
pub fn push_empty_json_str(out: &mut Vec<u8>)
    ensures
        final(out)@ == old(out)@ + json_string(seq![]),
{
    let ghost start = out@;
    out.push(34);
    out.push(34);
    assert(out@ =~= start + json_string(seq![]));
}

proof fn lemma_decimal_ascii(n: nat)
    ensures
        crate::text::all_ascii(decimal(n)),
    decreases n,
{
    if n >= 10 {
        lemma_decimal_ascii(n / 10);
    }
}

/// The decimal digits of `n` as a string.
pub fn decimal_string(n: u64) -> (s: String)
    ensures
        s@ == crate::text::ascii_chars(decimal(n as nat)),
{
    let mut out: Vec<u8> = Vec::new();
    push_decimal(&mut out, n);
    proof {
        lemma_decimal_ascii(n as nat);
        assert(out@ =~= decimal(n as nat));
    }
    crate::text::ascii_string(out)
}

} // verus!
