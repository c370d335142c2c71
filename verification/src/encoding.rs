//! Text encodings of byte strings: unpadded base64 (URL-safe and standard
//! alphabets) and hexadecimal.

use vstd::prelude::*;
use vstd::string::*;
use vstd::utf8::*;
use crate::text::{ascii_chars, all_ascii, ascii_string};

verus! {

broadcast use vstd::utf8::group_utf8_lib;

// ── Base64 without padding ────────────────────────────────────────────────

/// The ASCII byte of base64 digit `x` (`x < 64`); `url` selects the URL-safe
/// alphabet (`-`, `_`) over the standard one (`+`, `/`).
pub open spec fn b64_digit(x: u8, url: bool) -> u8 {
    if x < 26 {
        (65 + x) as u8
    } else if x < 52 {
        (71 + x) as u8
    } else if x < 62 {
        (x - 4) as u8
    } else if x == 62 {
        if url { 45u8 } else { 43u8 }
    } else {
        if url { 95u8 } else { 47u8 }
    }
}

/// Unpadded base64 of `data`: every 3 bytes give 4 digits, a final 1 or 2
/// bytes give 2 or 3 digits.
pub open spec fn b64_bytes(data: Seq<u8>, url: bool) -> Seq<u8>
    decreases data.len(),
{
    if data.len() == 0 {
        seq![]
    } else if data.len() == 1 {
        seq![b64_digit(data[0] >> 2, url), b64_digit((data[0] & 3) << 4, url)]
    } else if data.len() == 2 {
        seq![
            b64_digit(data[0] >> 2, url),
            b64_digit(((data[0] & 3) << 4) | (data[1] >> 4), url),
            b64_digit((data[1] & 15) << 2, url),
        ]
    } else {
        seq![
            b64_digit(data[0] >> 2, url),
            b64_digit(((data[0] & 3) << 4) | (data[1] >> 4), url),
            b64_digit(((data[1] & 15) << 2) | (data[2] >> 6), url),
            b64_digit(data[2] & 63, url),
        ] + b64_bytes(data.skip(3), url)
    }
}

/// The value of a URL-safe base64 digit, or -1 for any other byte.
pub open spec fn b64url_value(c: u8) -> int {
    if 65 <= c <= 90 {
        c - 65
    } else if 97 <= c <= 122 {
        c - 71
    } else if 48 <= c <= 57 {
        c + 4
    } else if c == 45 {
        62
    } else if c == 95 {
        63
    } else {
        -1
    }
}

/// The bytes that the URL-safe decoder reads from `b`: each group of up to 4
/// digits yields up to 3 bytes; a lone trailing digit is ignored; any byte
/// outside the alphabet in a group that is read makes the whole input invalid.
pub open spec fn b64url_decode_spec(b: Seq<u8>) -> Option<Seq<u8>>
    decreases b.len(),
{
    if b.len() < 2 {
        Some(seq![])
    } else {
        let a = b64url_value(b[0]);
        let v = b64url_value(b[1]);
        if a < 0 || v < 0 {
            None
        } else {
            let o1 = ((a as u8) << 2) | ((v as u8) >> 4);
            if b.len() == 2 {
                Some(seq![o1])
            } else {
                let c = b64url_value(b[2]);
                if c < 0 {
                    None
                } else {
                    let o2 = ((v as u8) << 4) | ((c as u8) >> 2);
                    if b.len() == 3 {
                        Some(seq![o1, o2])
                    } else {
                        let d = b64url_value(b[3]);
                        if d < 0 {
                            None
                        } else {
                            let o3 = ((c as u8) << 6) | (d as u8);
                            match b64url_decode_spec(b.skip(4)) {
                                Some(r) => Some(seq![o1, o2, o3] + r),
                                None => None,
                            }
                        }
                    }
                }
            }
        }
    }
}

fn b64_digit_exec(x: u8, url: bool) -> (r: u8)
    requires
        x < 64,
    ensures
        r == b64_digit(x, url),
        r < 128,
{
    if x < 26 {
        65 + x
    } else if x < 52 {
        71 + x
    } else if x < 62 {
        x - 4
    } else if x == 62 {
        if url { 45 } else { 43 }
    } else {
        if url { 95 } else { 47 }
    }
}

fn b64_encode_bytes(bytes: &[u8], url: bool) -> (out: Vec<u8>)
    ensures
        out@ == b64_bytes(bytes@, url),
        all_ascii(out@),
{
    let mut out: Vec<u8> = Vec::new();
    let mut i: usize = 0;
    assert(bytes@.skip(0) =~= bytes@);
    while i < bytes.len()
        invariant
            i <= bytes@.len(),
            out@ + b64_bytes(bytes@.skip(i as int), url) == b64_bytes(bytes@, url),
            all_ascii(out@),
        decreases bytes@.len() - i,
    {
        let ghost rest = bytes@.skip(i as int);
        let ghost before = out@;
        let rem = bytes.len() - i;
        let b0 = bytes[i];
        assert(rest[0] == b0);
        assert(b0 >> 2 < 64) by (bit_vector);
        out.push(b64_digit_exec(b0 >> 2, url));
        if rem == 1 {
            assert((b0 & 3) << 4 < 64) by (bit_vector);
            out.push(b64_digit_exec((b0 & 3) << 4, url));
            i = i + 1;
            assert(bytes@.skip(i as int).len() == 0);
        } else if rem == 2 {
            let b1 = bytes[i + 1];
            assert(rest[1] == b1);
            assert(((b0 & 3) << 4) | (b1 >> 4) < 64) by (bit_vector);
            assert((b1 & 15) << 2 < 64) by (bit_vector);
            out.push(b64_digit_exec(((b0 & 3) << 4) | (b1 >> 4), url));
            out.push(b64_digit_exec((b1 & 15) << 2, url));
            i = i + 2;
            assert(bytes@.skip(i as int).len() == 0);
        } else {
            let b1 = bytes[i + 1];
            let b2 = bytes[i + 2];
            assert(rest[1] == b1);
            assert(rest[2] == b2);
            assert(((b0 & 3) << 4) | (b1 >> 4) < 64) by (bit_vector);
            assert(((b1 & 15) << 2) | (b2 >> 6) < 64) by (bit_vector);
            assert(b2 & 63 < 64) by (bit_vector);
            out.push(b64_digit_exec(((b0 & 3) << 4) | (b1 >> 4), url));
            out.push(b64_digit_exec(((b1 & 15) << 2) | (b2 >> 6), url));
            out.push(b64_digit_exec(b2 & 63, url));
            i = i + 3;
            assert(rest.skip(3) =~= bytes@.skip(i as int));
        }
        assert(out@ + b64_bytes(bytes@.skip(i as int), url) =~= before + b64_bytes(rest, url));
    }
    assert(b64_bytes(bytes@.skip(i as int), url) =~= seq![]);
    assert(out@ + seq![] =~= out@);
    out
}

/// The length of unpadded base64 for `n` bytes: 4 digits per 3 bytes, and
/// 2 or 3 digits for a final 1 or 2 bytes.
pub open spec fn b64_len(n: nat) -> nat {
    let tail: nat = if n % 3 == 0 {
        0
    } else if n % 3 == 1 {
        2
    } else {
        3
    };
    4 * (n / 3) + tail
}

proof fn lemma_b64url_digit(x: u8)
    ensures
        b64url_value(b64_digit(x, true)) >= 0,
{
}

/// URL-safe base64 of any byte string has the unpadded length and uses only
/// the characters `A`-`Z`, `a`-`z`, `0`-`9`, `-` and `_`.
pub proof fn lemma_base64url_shape(data: Seq<u8>)
    ensures
        b64_bytes(data, true).len() == b64_len(data.len()),
        forall|i: int| 0 <= i < b64_bytes(data, true).len() ==> b64url_value(#[trigger] b64_bytes(data, true)[i]) >= 0,
    decreases data.len(),
{
    let e = b64_bytes(data, true);
    if data.len() == 0 {
    } else if data.len() == 1 {
        lemma_b64url_digit(data[0] >> 2);
        lemma_b64url_digit((data[0] & 3) << 4);
    } else if data.len() == 2 {
        lemma_b64url_digit(data[0] >> 2);
        lemma_b64url_digit(((data[0] & 3) << 4) | (data[1] >> 4));
        lemma_b64url_digit((data[1] & 15) << 2);
    } else {
        let rest = data.skip(3);
        lemma_base64url_shape(rest);
        lemma_b64url_digit(data[0] >> 2);
        lemma_b64url_digit(((data[0] & 3) << 4) | (data[1] >> 4));
        lemma_b64url_digit(((data[1] & 15) << 2) | (data[2] >> 6));
        lemma_b64url_digit(data[2] & 63);
        let head = seq![
            b64_digit(data[0] >> 2, true),
            b64_digit(((data[0] & 3) << 4) | (data[1] >> 4), true),
            b64_digit(((data[1] & 15) << 2) | (data[2] >> 6), true),
            b64_digit(data[2] & 63, true),
        ];
        assert(e == head + b64_bytes(rest, true));
        assert(rest.len() == data.len() - 3);
        assert(b64_len(data.len()) == 4 + b64_len(rest.len()));
        assert forall|i: int| 0 <= i < e.len() implies b64url_value(#[trigger] e[i]) >= 0 by {
            if i >= 4 {
                assert(e[i] == b64_bytes(rest, true)[i - 4]);
            }
        }
    }
}

/// URL-safe base64 without padding, as used for public keys in key events.
pub fn base64url(bytes: &[u8]) -> (s: String)
    ensures
        s@ == ascii_chars(b64_bytes(bytes@, true)),
        encode_utf8(s@) == b64_bytes(bytes@, true),
{
    ascii_string(b64_encode_bytes(bytes, true))
}

/// Standard-alphabet base64 without padding, as used for the Argon2 salt string.
pub fn base64_encode_no_pad(bytes: &[u8]) -> (s: String)
    ensures
        s@ == ascii_chars(b64_bytes(bytes@, false)),
        encode_utf8(s@) == b64_bytes(bytes@, false),
{
    ascii_string(b64_encode_bytes(bytes, false))
}

fn b64url_value_exec(c: u8) -> (r: i8)
    ensures
        r as int == b64url_value(c),
{
    if 65 <= c && c <= 90 {
        (c - 65) as i8
    } else if 97 <= c && c <= 122 {
        (c - 71) as i8
    } else if 48 <= c && c <= 57 {
        (c + 4) as i8
    } else if c == 45 {
        62
    } else if c == 95 {
        63
    } else {
        -1
    }
}

/// Decodes URL-safe unpadded base64 (the bytes of `s`), as `b64url_decode_spec` says.
pub fn base64url_decode(s: &str) -> (r: Result<Vec<u8>, ()>)
    ensures
        r is Ok <==> b64url_decode_spec(s.spec_bytes()) is Some,
        r matches Ok(v) ==> b64url_decode_spec(s.spec_bytes()) == Some(v@),
{
    let b = s.as_bytes();
    let mut out: Vec<u8> = Vec::new();
    let mut i: usize = 0;
    assert(b@.skip(0) =~= b@);
    while b.len() - i >= 2
        invariant
            b@ == s.spec_bytes(),
            i <= b@.len(),
            b64url_decode_spec(b@) == match b64url_decode_spec(b@.skip(i as int)) {
                Some(r) => Some(out@ + r),
                None => None,
            },
        decreases b@.len() - i,
    {
        let ghost rest = b@.skip(i as int);
        let ghost before = out@;
        assert(rest[0] == b[i as int] && rest[1] == b[i + 1]);
        let a = b64url_value_exec(b[i]);
        let bv = b64url_value_exec(b[i + 1]);
        if a < 0 || bv < 0 {
            return Err(());
        }
        let o1 = ((a as u8) << 2) | ((bv as u8) >> 4);
        out.push(o1);
        if b.len() - i > 2 {
            assert(rest[2] == b[i + 2]);
            let c = b64url_value_exec(b[i + 2]);
            if c < 0 {
                return Err(());
            }
            let o2 = ((bv as u8) << 4) | ((c as u8) >> 2);
            out.push(o2);
            if b.len() - i > 3 {
                assert(rest[3] == b[i + 3]);
                let d = b64url_value_exec(b[i + 3]);
                if d < 0 {
                    return Err(());
                }
                let o3 = ((c as u8) << 6) | (d as u8);
                out.push(o3);
                i = i + 4;
                assert(rest.skip(4) =~= b@.skip(i as int));
                assert(out@ =~= before + seq![o1, o2, o3]);
                proof {
                    match b64url_decode_spec(rest.skip(4)) {
                        Some(r) => {
                            assert(before + (seq![o1, o2, o3] + r) =~= out@ + r);
                        },
                        None => {},
                    }
                }
            } else {
                i = i + 3;
                assert(b@.skip(i as int).len() == 0);
                assert(out@ =~= before + seq![o1, o2]);
                assert(out@ + seq![] =~= out@);
            }
        } else {
            i = i + 2;
            assert(b@.skip(i as int).len() == 0);
            assert(out@ =~= before + seq![o1]);
            assert(out@ + seq![] =~= out@);
        }
    }
    assert(b@.skip(i as int).len() < 2);
    assert(out@ + seq![] =~= out@);
    Ok(out)
}

proof fn lemma_b64url_value_digit(x: u8)
    requires
        x < 64,
    ensures
        b64url_value(b64_digit(x, true)) == x as int,
{
}

/// Decoding the URL-safe base64 of any byte string gives back that byte string.
pub proof fn lemma_base64url_roundtrip(data: Seq<u8>)
    ensures
        b64url_decode_spec(b64_bytes(data, true)) == Some(data),
    decreases data.len(),
{
    let e = b64_bytes(data, true);
    if data.len() == 0 {
    } else {
        let b0 = data[0];
        assert(b0 >> 2 < 64) by (bit_vector);
        lemma_b64url_value_digit(b0 >> 2);
        if data.len() == 1 {
            assert((b0 & 3) << 4 < 64) by (bit_vector);
            lemma_b64url_value_digit((b0 & 3) << 4);
            assert((((b0 >> 2) as u8) << 2) | ((((b0 & 3) << 4) as u8) >> 4) == b0) by (bit_vector);
            assert(seq![b0] =~= data);
        } else {
            let b1 = data[1];
            assert(((b0 & 3) << 4) | (b1 >> 4) < 64) by (bit_vector);
            lemma_b64url_value_digit(((b0 & 3) << 4) | (b1 >> 4));
            assert((((b0 >> 2) as u8) << 2) | (((((b0 & 3) << 4) | (b1 >> 4)) as u8) >> 4) == b0)
                by (bit_vector);
            if data.len() == 2 {
                assert((b1 & 15) << 2 < 64) by (bit_vector);
                lemma_b64url_value_digit((b1 & 15) << 2);
                assert((((((b0 & 3) << 4) | (b1 >> 4)) as u8) << 4) | ((((b1 & 15) << 2) as u8) >> 2)
                    == b1) by (bit_vector);
                assert(seq![b0, b1] =~= data);
            } else {
                let b2 = data[2];
                assert(((b1 & 15) << 2) | (b2 >> 6) < 64) by (bit_vector);
                assert(b2 & 63 < 64) by (bit_vector);
                lemma_b64url_value_digit(((b1 & 15) << 2) | (b2 >> 6));
                lemma_b64url_value_digit(b2 & 63);
                assert((((((b0 & 3) << 4) | (b1 >> 4)) as u8) << 4) | (((((b1 & 15) << 2) | (b2 >> 6))
                    as u8) >> 2) == b1) by (bit_vector);
                assert((((((b1 & 15) << 2) | (b2 >> 6)) as u8) << 6) | ((b2 & 63) as u8) == b2)
                    by (bit_vector);
                lemma_base64url_roundtrip(data.skip(3));
                assert(e.skip(4) =~= b64_bytes(data.skip(3), true));
                assert(seq![b0, b1, b2] + data.skip(3) =~= data);
            }
        }
    }
}

// ── Hexadecimal ───────────────────────────────────────────────────────────

/// The lowercase ASCII hex digit of `v` (`v < 16`).
pub open spec fn hex_digit(v: u8) -> u8 {
    if v < 10 {
        (48 + v) as u8
    } else {
        (87 + v) as u8
    }
}

/// Lowercase hexadecimal of `data`, two digits per byte, high nibble first.
pub open spec fn hex_bytes(data: Seq<u8>) -> Seq<u8>
    decreases data.len(),
{
    if data.len() == 0 {
        seq![]
    } else {
        seq![hex_digit(data[0] >> 4), hex_digit(data[0] & 15)] + hex_bytes(data.drop_first())
    }
}

/// The characters of the lowercase hexadecimal of `data`.
pub open spec fn hex_chars(data: Seq<u8>) -> Seq<char> {
    ascii_chars(hex_bytes(data))
}

/// The value of a hex digit of either case, or `None`.
pub open spec fn hex_value(c: u8) -> Option<u8> {
    if 65 <= c <= 70 {
        Some((c - 55) as u8)
    } else if 97 <= c <= 102 {
        Some((c - 87) as u8)
    } else if 48 <= c <= 57 {
        Some((c - 48) as u8)
    } else {
        None
    }
}

/// The bytes of consecutive digit pairs, or `None` if a digit is invalid.
pub open spec fn hex_pairs(b: Seq<u8>) -> Option<Seq<u8>>
    decreases b.len(),
{
    if b.len() < 2 {
        Some(seq![])
    } else {
        match (hex_value(b[0]), hex_value(b[1]), hex_pairs(b.skip(2))) {
            (Some(hi), Some(lo), Some(rest)) => Some(seq![(hi << 4) | lo] + rest),
            _ => None,
        }
    }
}

/// What hex decoding of the bytes `b` gives: `None` for an odd length or an
/// invalid digit.
pub open spec fn hex_decode_spec(b: Seq<u8>) -> Option<Seq<u8>> {
    if b.len() % 2 != 0 {
        None
    } else {
        hex_pairs(b)
    }
}

/// `hex::encode`: the lowercase hexadecimal string of `data`.
#[verifier::external_body]
pub(crate) fn hex_encode(data: &[u8]) -> (s: String)
    ensures
        s@ == hex_chars(data@),
{
    hex::encode(data)
}

/// `hex::decode`: the bytes of a hex string of either case; `None` exactly
/// when its byte length is odd or one of its bytes is not a hex digit.
#[verifier::external_body]
pub(crate) fn hex_decode(s: &str) -> (r: Option<Vec<u8>>)
    ensures
        r is Some <==> hex_decode_spec(s.spec_bytes()) is Some,
        r matches Some(v) ==> hex_decode_spec(s.spec_bytes()) == Some(v@),
{
    hex::decode(s).ok()
}

proof fn lemma_hex_bytes_ascii(data: Seq<u8>)
    ensures
        all_ascii(hex_bytes(data)),
        hex_bytes(data).len() == 2 * data.len(),
    decreases data.len(),
{
    if data.len() > 0 {
        lemma_hex_bytes_ascii(data.drop_first());
        let d = data[0];
        assert(d >> 4 < 16 && d & 15 < 16) by (bit_vector);
    }
}

/// The UTF-8 bytes of the hexadecimal characters are the hex digits themselves.
pub proof fn lemma_hex_chars_bytes(data: Seq<u8>)
    ensures
        encode_utf8(hex_chars(data)) == hex_bytes(data),
        all_ascii(hex_bytes(data)),
        hex_bytes(data).len() == 2 * data.len(),
{
    lemma_hex_bytes_ascii(data);
    crate::text::lemma_ascii_encoding(hex_bytes(data));
}

/// Decoding the hexadecimal of any byte string gives back that byte string.
pub proof fn lemma_hex_roundtrip(data: Seq<u8>)
    ensures
        hex_decode_spec(hex_bytes(data)) == Some(data),
        hex_decode_spec(encode_utf8(hex_chars(data))) == Some(data),
{
    lemma_hex_pairs_roundtrip(data);
    lemma_hex_chars_bytes(data);
    assert((2 * data.len()) % 2 == 0) by (nonlinear_arith);
}

proof fn lemma_hex_pairs_roundtrip(data: Seq<u8>)
    ensures
        hex_pairs(hex_bytes(data)) == Some(data),
    decreases data.len(),
{
    if data.len() > 0 {
        let d = data[0];
        lemma_hex_pairs_roundtrip(data.drop_first());
        let h = hex_bytes(data);
        assert(h.skip(2) =~= hex_bytes(data.drop_first()));
        assert(d >> 4 < 16 && d & 15 < 16) by (bit_vector);
        assert(((d >> 4) << 4) | (d & 15) == d) by (bit_vector);
        assert(seq![d] + data.drop_first() =~= data);
    }
}

} // verus!
