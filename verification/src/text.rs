//! Text helpers over `String` and `&str`, stated over their character views
//! and their UTF-8 encodings.

use vstd::prelude::*;
use vstd::string::*;
use vstd::utf8::*;

verus! {

broadcast use vstd::utf8::group_utf8_lib;

/// The characters whose code points are the given ASCII bytes.
pub open spec fn ascii_chars(b: Seq<u8>) -> Seq<char> {
    b.map_values(|x: u8| x as char)
}

/// Every byte is below 128.
pub open spec fn all_ascii(b: Seq<u8>) -> bool {
    forall|i: int| 0 <= i < b.len() ==> b[i] < 128
}

/// Builds a `String` from bytes when they are valid UTF-8
/// (std's `String::from_utf8`: `Ok` exactly on valid UTF-8, holding the
/// decoded characters).
#[verifier::external_body]
pub(crate) fn string_from_utf8(bytes: Vec<u8>) -> (r: Option<String>)
    ensures
        r is Some <==> valid_utf8(bytes@),
        r matches Some(s) ==> s@ == decode_utf8(bytes@),
{
    String::from_utf8(bytes).ok()
}

/// The characters of a string slice, in order.
pub(crate) fn str_chars(s: &str) -> (v: Vec<char>)
    ensures
        v@ == s@,
{
    broadcast use vstd::string::group_string_axioms;
    let mut v: Vec<char> = Vec::new();
    for c in it: s.chars()
        invariant
            it.seq() == s@,
            v@ == it.seq().take(it.index() as int),
    {
        v.push(c);
    }
    v
}

/// std's `String::push`: appends one character.
#[verifier::external_body]
pub(crate) fn string_push(s: &mut String, c: char)
    ensures
        final(s)@ == old(s)@.push(c),
{
    s.push(c);
}

/// The string made of the given characters.
pub(crate) fn string_from_chars(v: &[char]) -> (s: String)
    ensures
        s@ == v@,
{
    let mut s = String::new();
    let mut i: usize = 0;
    while i < v.len()
        invariant
            i <= v.len(),
            s@ == v@.take(i as int),
        decreases v.len() - i,
    {
        string_push(&mut s, v[i]);
        assert(v@.take(i as int + 1) =~= v@.take(i as int).push(v@[i as int]));
        i += 1;
    }
    assert(v@.take(v.len() as int) =~= v@);
    s
}

/// Unicode `White_Space` (the property that std's `char::is_whitespace` tests).
pub open spec fn is_white_space(c: char) -> bool {
    ||| ('\u{9}' <= c && c <= '\u{d}')
    ||| c == ' '
    ||| c == '\u{85}'
    ||| c == '\u{a0}'
    ||| c == '\u{1680}'
    ||| ('\u{2000}' <= c && c <= '\u{200a}')
    ||| c == '\u{2028}'
    ||| c == '\u{2029}'
    ||| c == '\u{202f}'
    ||| c == '\u{205f}'
    ||| c == '\u{3000}'
}

/// std's `char::is_whitespace`: whether `c` has the Unicode `White_Space` property.
#[verifier::external_body]
pub(crate) fn char_is_whitespace(c: char) -> (r: bool)
    ensures
        r == is_white_space(c),
{
    c.is_whitespace()
}

pub proof fn lemma_ascii_encoding(b: Seq<u8>)
    requires
        all_ascii(b),
    ensures
        encode_utf8(ascii_chars(b)) == b,
        valid_utf8(b),
        decode_utf8(b) == ascii_chars(b),
{
    let c = ascii_chars(b);
    assert(is_ascii_chars(c)) by {
        assert forall|i: int| 0 <= i < c.len() implies '\0' <= #[trigger] c[i] <= '\u{7f}' by {
            assert(b[i] < 128);
        }
    }
    is_ascii_chars_encode_utf8(c);
    assert forall|i: int| 0 <= i < b.len() implies encode_utf8(c)[i] == b[i] by {
        assert(c[i] as u8 == encode_utf8(c)[i]);
        assert(c[i] == b[i] as char);
    }
    assert(encode_utf8(c) =~= b);
}

/// The string whose characters are the given ASCII bytes.
pub fn ascii_string(bytes: Vec<u8>) -> (s: String)
    requires
        all_ascii(bytes@),
    ensures
        s@ == ascii_chars(bytes@),
        encode_utf8(s@) == bytes@,
{
    proof {
        lemma_ascii_encoding(bytes@);
    }
    let ghost b = bytes@;
    match string_from_utf8(bytes) {
        Some(s) => s,
        None => {
            assert(false);
            String::new()
        },
    }
}

/// Whether two string slices hold the same characters.
pub fn str_eq(a: &str, b: &str) -> (r: bool)
    ensures
        r == (a@ == b@),
{
    let r = crate::bytes::bytes_equal(a.as_bytes(), b.as_bytes());
    proof {
        if r {
            assert(decode_utf8(encode_utf8(a@)) == a@);
            assert(decode_utf8(encode_utf8(b@)) == b@);
        }
    }
    r
}

/// Whether the UTF-8 bytes of `s` begin with those of `prefix` (std's `str::starts_with`
/// on a string pattern).
pub fn starts_with(s: &str, prefix: &str) -> (r: bool)
    ensures
        r == prefix.spec_bytes().is_prefix_of(s.spec_bytes()),
{
    let sb = s.as_bytes();
    let pb = prefix.as_bytes();
    if pb.len() > sb.len() {
        return false;
    }
    let mut i: usize = 0;
    while i < pb.len()
        invariant
            pb@ == prefix.spec_bytes(),
            sb@ == s.spec_bytes(),
            pb@.len() <= sb@.len(),
            i <= pb@.len(),
            forall|j: int| 0 <= j < i ==> pb@[j] == sb@[j],
        decreases pb@.len() - i,
    {
        if pb[i] != sb[i] {
            return false;
        }
        i = i + 1;
    }
    true
}

/// The words joined with `sep` between consecutive words.
pub open spec fn join_words(ws: Seq<Seq<char>>, sep: Seq<char>) -> Seq<char>
    decreases ws.len(),
{
    if ws.len() == 0 {
        seq![]
    } else if ws.len() == 1 {
        ws[0]
    } else {
        ws[0] + sep + join_words(ws.drop_first(), sep)
    }
}

/// The character views of a sequence of strings.
pub open spec fn views(ws: Seq<String>) -> Seq<Seq<char>> {
    ws.map_values(|w: String| w@)
}

proof fn lemma_join_push(ws: Seq<Seq<char>>, w: Seq<char>, sep: Seq<char>)
    ensures
        join_words(ws.push(w), sep) == if ws.len() == 0 {
            w
        } else {
            join_words(ws, sep) + sep + w
        },
    decreases ws.len(),
{
    if ws.len() == 0 {
        assert(ws.push(w) =~= seq![w]);
    } else if ws.len() == 1 {
        assert(ws.push(w).drop_first() =~= seq![w]);
        assert(join_words(seq![w], sep) == w);
    } else {
        lemma_join_push(ws.drop_first(), w, sep);
        assert(ws.push(w).drop_first() =~= ws.drop_first().push(w));
        let j = join_words(ws.drop_first(), sep);
        assert(ws[0] + sep + (j + sep + w) =~= ws[0] + sep + j + sep + w);
    }
}

/// Joins the strings with `sep` between consecutive ones (std's `[String]::join`).
pub fn join(ws: &[String], sep: &str) -> (r: String)
    ensures
        r@ == join_words(views(ws@), sep@),
{
    let mut r = String::new();
    let mut i: usize = 0;
    while i < ws.len()
        invariant
            i <= ws@.len(),
            r@ == join_words(views(ws@.subrange(0, i as int)), sep@),
        decreases ws@.len() - i,
    {
        proof {
            assert(views(ws@.subrange(0, i + 1)) =~= views(ws@.subrange(0, i as int)).push(
                ws@[i as int]@,
            ));
            lemma_join_push(views(ws@.subrange(0, i as int)), ws@[i as int]@, sep@);
        }
        if i > 0 {
            r.append(sep);
        }
        r.append(ws[i].as_str());
        i = i + 1;
    }
    assert(ws@.subrange(0, i as int) =~= ws@);
    r
}

/// The words of `s`: its maximal runs of non-white-space characters, in order,
/// continuing a word whose first characters are `cur`.
pub open spec fn split_ws_from(s: Seq<char>, cur: Seq<char>) -> Seq<Seq<char>>
    decreases s.len(),
{
    if s.len() == 0 {
        if cur.len() > 0 {
            seq![cur]
        } else {
            seq![]
        }
    } else if is_white_space(s[0]) {
        (if cur.len() > 0 {
            seq![cur]
        } else {
            seq![]
        }) + split_ws_from(s.drop_first(), seq![])
    } else {
        split_ws_from(s.drop_first(), cur.push(s[0]))
    }
}

/// The words of `s`, as std's `str::split_whitespace` yields them.
pub open spec fn split_ws(s: Seq<char>) -> Seq<Seq<char>> {
    split_ws_from(s, seq![])
}

/// A word: at least one character and no white space.
pub open spec fn is_word(w: Seq<char>) -> bool {
    &&& w.len() > 0
    &&& forall|i: int| 0 <= i < w.len() ==> !is_white_space(#[trigger] w[i])
}

proof fn lemma_split_from_words(s: Seq<char>, cur: Seq<char>)
    requires
        forall|i: int| 0 <= i < cur.len() ==> !is_white_space(#[trigger] cur[i]),
    ensures
        forall|k: int| 0 <= k < split_ws_from(s, cur).len() ==> is_word(#[trigger] split_ws_from(s, cur)[k]),
    decreases s.len(),
{
    if s.len() == 0 {
        if cur.len() > 0 {
            assert(split_ws_from(s, cur) == seq![cur]);
            assert(is_word(cur));
        }
    } else if is_white_space(s[0]) {
        lemma_split_from_words(s.drop_first(), seq![]);
        let head: Seq<Seq<char>> = if cur.len() > 0 { seq![cur] } else { seq![] };
        let tail = split_ws_from(s.drop_first(), seq![]);
        assert(split_ws_from(s, cur) == head + tail);
        assert forall|k: int| 0 <= k < (head + tail).len() implies is_word(#[trigger] (head + tail)[k]) by {
            if k >= head.len() {
                assert((head + tail)[k] == tail[k - head.len()]);
            } else {
                assert((head + tail)[k] == cur);
                assert(is_word(cur));
            }
        }
    } else {
        let c2 = cur.push(s[0]);
        assert forall|i: int| 0 <= i < c2.len() implies !is_white_space(#[trigger] c2[i]) by {
            if i < cur.len() {
                assert(c2[i] == cur[i]);
            }
        }
        lemma_split_from_words(s.drop_first(), c2);
        assert(split_ws_from(s, cur) == split_ws_from(s.drop_first(), c2));
    }
}

/// Every piece that splitting at white space gives is a word.
pub proof fn lemma_split_words(s: Seq<char>)
    ensures
        forall|k: int| 0 <= k < split_ws(s).len() ==> is_word(#[trigger] split_ws(s)[k]),
{
    lemma_split_from_words(s, seq![]);
}

proof fn lemma_split_through_word(w: Seq<char>, rest: Seq<char>, cur: Seq<char>)
    requires
        forall|i: int| 0 <= i < w.len() ==> !is_white_space(#[trigger] w[i]),
    ensures
        split_ws_from(w + rest, cur) == split_ws_from(rest, cur + w),
    decreases w.len(),
{
    if w.len() == 0 {
        assert(w + rest =~= rest);
        assert(cur + w =~= cur);
    } else {
        assert((w + rest)[0] == w[0]);
        assert((w + rest).drop_first() =~= w.drop_first() + rest);
        lemma_split_through_word(w.drop_first(), rest, cur.push(w[0]));
        assert(cur.push(w[0]) + w.drop_first() =~= cur + w);
    }
}

/// Splitting the words joined by single spaces gives the words back.
pub proof fn lemma_split_join(ws: Seq<Seq<char>>)
    requires
        forall|i: int| 0 <= i < ws.len() ==> is_word(#[trigger] ws[i]),
    ensures
        split_ws(join_words(ws, seq![' '])) == ws,
    decreases ws.len(),
{
    if ws.len() == 0 {
        assert(split_ws(seq![]) =~= Seq::<Seq<char>>::empty());
    } else if ws.len() == 1 {
        assert(is_word(ws[0]));
        lemma_split_through_word(ws[0], seq![], seq![]);
        assert(ws[0] + Seq::<char>::empty() =~= ws[0]);
        assert(Seq::<char>::empty() + ws[0] =~= ws[0]);
        assert(seq![ws[0]] =~= ws);
    } else {
        let rest = ws.drop_first();
        assert forall|i: int| 0 <= i < rest.len() implies is_word(#[trigger] rest[i]) by {
            assert(rest[i] == ws[i + 1]);
        }
        lemma_split_join(rest);
        let j = join_words(rest, seq![' ']);
        assert(is_word(ws[0]));
        assert(ws[0] + seq![' '] + j =~= ws[0] + (seq![' '] + j));
        lemma_split_through_word(ws[0], seq![' '] + j, seq![]);
        assert(Seq::<char>::empty() + ws[0] =~= ws[0]);
        let sj = seq![' '] + j;
        assert(sj[0] == ' ');
        assert(sj.drop_first() =~= j);
        assert(seq![ws[0]] + rest =~= ws);
    }
}

/// Splits `s` into its white-space separated words.
pub fn split_whitespace(s: &str) -> (r: Vec<String>)
    ensures
        views(r@) == split_ws(s@),
{
    let cs = str_chars(s);
    let mut words: Vec<String> = Vec::new();
    let mut cur: Vec<char> = Vec::new();
    let mut i: usize = 0;
    assert(cs@.skip(0) =~= cs@);
    assert(views(words@) + split_ws(s@) =~= split_ws(s@));
    while i < cs.len()
        invariant
            cs@ == s@,
            i <= cs@.len(),
            views(words@) + split_ws_from(cs@.skip(i as int), cur@) == split_ws(s@),
        decreases cs@.len() - i,
    {
        let ghost rest = cs@.skip(i as int);
        assert(rest.drop_first() =~= cs@.skip(i + 1));
        let c = cs[i];
        if char_is_whitespace(c) {
            if cur.len() > 0 {
                let w = string_from_chars(cur.as_slice());
                let ghost before = words@;
                words.push(w);
                assert(views(words@) =~= views(before) + seq![cur@]);
            } else {
                assert(views(words@) + seq![] =~= views(words@));
            }
            cur = Vec::new();
        } else {
            cur.push(c);
        }
        i = i + 1;
    }
    proof {
        let rest = cs@.skip(i as int);
        assert(rest.len() == 0);
    }
    if cur.len() > 0 {
        let w = string_from_chars(cur.as_slice());
        let ghost before = words@;
        words.push(w);
        assert(views(words@) =~= views(before) + seq![cur@]);
    } else {
        assert(views(words@) + seq![] =~= views(words@));
    }
    words
}

/// `s` without its leading white space.
pub open spec fn trim_start_ws(s: Seq<char>) -> Seq<char>
    decreases s.len(),
{
    if s.len() > 0 && is_white_space(s[0]) {
        trim_start_ws(s.drop_first())
    } else {
        s
    }
}

/// `s` without its trailing white space.
pub open spec fn trim_end_ws(s: Seq<char>) -> Seq<char>
    decreases s.len(),
{
    if s.len() > 0 && is_white_space(s.last()) {
        trim_end_ws(s.drop_last())
    } else {
        s
    }
}

/// `s` without its leading and trailing white space (std's `str::trim`).
pub open spec fn trim_ws(s: Seq<char>) -> Seq<char> {
    trim_end_ws(trim_start_ws(s))
}

/// The string without its leading and trailing white space.
pub fn trim(s: &str) -> (r: String)
    ensures
        r@ == trim_ws(s@),
{
    let cs = str_chars(s);
    let n = cs.len();
    let mut i: usize = 0;
    assert(cs@.skip(0) =~= cs@);
    while i < n && char_is_whitespace(cs[i])
        invariant
            cs@ == s@,
            n == cs@.len(),
            i <= n,
            trim_start_ws(s@) == trim_start_ws(cs@.skip(i as int)),
        decreases n - i,
    {
        assert(cs@.skip(i as int).drop_first() =~= cs@.skip(i + 1));
        i = i + 1;
    }
    assert(trim_start_ws(cs@.skip(i as int)) == cs@.skip(i as int));
    let mut j: usize = n;
    assert(cs@.subrange(i as int, n as int) =~= cs@.skip(i as int));
    while j > i && char_is_whitespace(cs[j - 1])
        invariant
            cs@ == s@,
            n == cs@.len(),
            i <= j <= n,
            trim_ws(s@) == trim_end_ws(cs@.subrange(i as int, j as int)),
        decreases j - i,
    {
        assert(cs@.subrange(i as int, j as int).drop_last() =~= cs@.subrange(i as int, j - 1));
        j = j - 1;
    }
    assert(trim_end_ws(cs@.subrange(i as int, j as int)) == cs@.subrange(i as int, j as int));
    string_from_chars(&cs.as_slice()[i..j])
}

} // verus!
