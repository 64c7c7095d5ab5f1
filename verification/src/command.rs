//! The text commands that open a test, as the server reads them.
//!
//! The server turns the bytes it received into text (invalid UTF-8 becoming
//! U+FFFD), trims Unicode white space from both ends and compares the result
//! with a command word. A valid UTF-8 sequence is always decoded as itself,
//! whatever precedes it, and U+FFFD is not white space, so trimming the text
//! is the same as removing the UTF-8 encodings of white-space characters from
//! both ends of the bytes, and the trimmed text equals an ASCII word exactly
//! when the remaining bytes are that word. The functions here work on the
//! bytes directly.
use vstd::prelude::*;

verus! {

/// An ASCII white-space byte: tab, line feed, vertical tab, form feed,
/// carriage return or space.
pub open spec fn is_ascii_ws(b: u8) -> bool {
    (0x09 <= b && b <= 0x0d) || b == 0x20
}

/// `c2 x` encodes U+0085 or U+00A0.
pub open spec fn is_ws2(a: u8, b: u8) -> bool {
    a == 0xc2 && (b == 0x85 || b == 0xa0)
}

/// `a b c` encodes U+1680, U+2000..U+200A, U+2028, U+2029, U+202F, U+205F or U+3000.
pub open spec fn is_ws3(a: u8, b: u8, c: u8) -> bool {
    ||| (a == 0xe1 && b == 0x9a && c == 0x80)
    ||| (a == 0xe2 && b == 0x80 && ((0x80 <= c && c <= 0x8a) || c == 0xa8 || c == 0xa9 || c
        == 0xaf))
    ||| (a == 0xe2 && b == 0x81 && c == 0x9f)
    ||| (a == 0xe3 && b == 0x80 && c == 0x80)
}

/// The length of the encoding of a white-space character at the start of
/// `s`, or 0 if `s` does not start with one.
pub open spec fn ws_len_at_start(s: Seq<u8>) -> nat {
    if s.len() >= 1 && is_ascii_ws(s[0]) {
        1
    } else if s.len() >= 2 && is_ws2(s[0], s[1]) {
        2
    } else if s.len() >= 3 && is_ws3(s[0], s[1], s[2]) {
        3
    } else {
        0
    }
}

/// The length of the encoding of a white-space character at the end of
/// `s`, or 0 if `s` does not end with one.
pub open spec fn ws_len_at_end(s: Seq<u8>) -> nat {
    let n = s.len() as int;
    if n >= 1 && is_ascii_ws(s[n - 1]) {
        1
    } else if n >= 2 && is_ws2(s[n - 2], s[n - 1]) {
        2
    } else if n >= 3 && is_ws3(s[n - 3], s[n - 2], s[n - 1]) {
        3
    } else {
        0
    }
}

/// `s` without the white space at its start.
pub open spec fn trim_start(s: Seq<u8>) -> Seq<u8>
    decreases s.len(),
{
    let k = ws_len_at_start(s);
    if k > 0 {
        trim_start(s.skip(k as int))
    } else {
        s
    }
}

/// `s` without the white space at its end.
pub open spec fn trim_end(s: Seq<u8>) -> Seq<u8>
    decreases s.len(),
{
    let k = ws_len_at_end(s);
    if k > 0 {
        trim_end(s.take(s.len() - k))
    } else {
        s
    }
}

/// `s` without white space at either end.
pub open spec fn trimmed(s: Seq<u8>) -> Seq<u8> {
    trim_end(trim_start(s))
}

/// `e` is the UTF-8 encoding of one white-space character.
pub open spec fn is_ws_encoding(e: Seq<u8>) -> bool {
    e.len() > 0 && ws_len_at_start(e) == e.len()
}

/// Every element of `run` encodes one white-space character.
pub open spec fn all_ws_encodings(run: Seq<Seq<u8>>) -> bool {
    forall|i: int| 0 <= i < run.len() ==> is_ws_encoding(#[trigger] run[i])
}

proof fn lemma_trim_start_one(e: Seq<u8>, y: Seq<u8>)
    requires
        is_ws_encoding(e),
    ensures
        trim_start(e + y) == trim_start(y),
{
    assert(ws_len_at_start(e + y) == e.len());
    assert((e + y).skip(e.len() as int) =~= y);
}

/// White space at the front of `x` does not survive `trim_start`.
pub proof fn lemma_trim_start_run(run: Seq<Seq<u8>>, x: Seq<u8>)
    requires
        all_ws_encodings(run),
    ensures
        trim_start(run.flatten() + x) == trim_start(x),
    decreases run.len(),
{
    if run.len() > 0 {
        let rest = run.drop_first();
        assert(all_ws_encodings(rest)) by {
            assert forall|i: int| 0 <= i < rest.len() implies is_ws_encoding(#[trigger] rest[i]) by {
                assert(rest[i] == run[i + 1]);
            }
        }
        assert(is_ws_encoding(run[0]));
        lemma_trim_start_run(rest, x);
        assert(run.flatten() + x =~= run[0] + (rest.flatten() + x));
        lemma_trim_start_one(run[0], rest.flatten() + x);
    }
}

proof fn lemma_trim_end_one(y: Seq<u8>, e: Seq<u8>)
    requires
        is_ws_encoding(e),
    ensures
        trim_end(y + e) == trim_end(y),
{
    let n = (y + e).len() as int;
    assert((y + e)[n - 1] == e[e.len() - 1]);
    if e.len() >= 2 {
        assert((y + e)[n - 2] == e[e.len() - 2]);
    }
    if e.len() >= 3 {
        assert((y + e)[n - 3] == e[e.len() - 3]);
    }
    assert(ws_len_at_end(y + e) == e.len());
    assert((y + e).take(n - e.len()) =~= y);
}

/// White space at the back of `x` does not survive `trim_end`.
pub proof fn lemma_trim_end_run(x: Seq<u8>, run: Seq<Seq<u8>>)
    requires
        all_ws_encodings(run),
    ensures
        trim_end(x + run.flatten()) == trim_end(x),
    decreases run.len(),
{
    run.lemma_flatten_and_flatten_alt_are_equivalent();
    if run.len() > 0 {
        let rest = run.drop_last();
        assert(all_ws_encodings(rest)) by {
            assert forall|i: int| 0 <= i < rest.len() implies is_ws_encoding(#[trigger] rest[i]) by {
                assert(rest[i] == run[i]);
            }
        }
        assert(is_ws_encoding(run[run.len() - 1]));
        rest.lemma_flatten_and_flatten_alt_are_equivalent();
        lemma_trim_end_run(x, rest);
        assert(x + run.flatten() =~= (x + rest.flatten()) + run.last());
        lemma_trim_end_one(x + rest.flatten(), run.last());
    }
}

/// The UTF-8 encodings of the Unicode white-space characters: U+0009 to
/// U+000D, U+0020, U+0085, U+00A0, U+1680, U+2000 to U+200A, U+2028,
/// U+2029, U+202F, U+205F and U+3000.
pub open spec fn unicode_white_space_utf8() -> Seq<Seq<u8>> {
    seq![
        seq![0x09u8], seq![0x0au8], seq![0x0bu8], seq![0x0cu8], seq![0x0du8], seq![0x20u8],
        seq![0xc2u8, 0x85u8], seq![0xc2u8, 0xa0u8],
        seq![0xe1u8, 0x9au8, 0x80u8],
        seq![0xe2u8, 0x80u8, 0x80u8], seq![0xe2u8, 0x80u8, 0x81u8], seq![0xe2u8, 0x80u8, 0x82u8],
        seq![0xe2u8, 0x80u8, 0x83u8], seq![0xe2u8, 0x80u8, 0x84u8], seq![0xe2u8, 0x80u8, 0x85u8],
        seq![0xe2u8, 0x80u8, 0x86u8], seq![0xe2u8, 0x80u8, 0x87u8], seq![0xe2u8, 0x80u8, 0x88u8],
        seq![0xe2u8, 0x80u8, 0x89u8], seq![0xe2u8, 0x80u8, 0x8au8],
        seq![0xe2u8, 0x80u8, 0xa8u8], seq![0xe2u8, 0x80u8, 0xa9u8], seq![0xe2u8, 0x80u8, 0xafu8],
        seq![0xe2u8, 0x81u8, 0x9fu8],
        seq![0xe3u8, 0x80u8, 0x80u8],
    ]
}

/// Every Unicode white-space character is trimmed from either end of any
/// bytes, however much white space surrounds it; bytes that start with
/// none of `09`..`0d`, `20`, `c2`, `e1`, `e2`, `e3` keep their start, and
/// bytes whose last byte cannot end a white-space character keep their end.
pub proof fn lemma_trim_removes_white_space(k: int, s: Seq<u8>)
    requires
        0 <= k < unicode_white_space_utf8().len(),
    ensures
        trim_start(unicode_white_space_utf8()[k] + s) == trim_start(s),
        trim_end(s + unicode_white_space_utf8()[k]) == trim_end(s),
        s.len() > 0 && !((0x09 <= s[0] && s[0] <= 0x0d) || s[0] == 0x20 || s[0] == 0xc2 || s[0]
            == 0xe1 || s[0] == 0xe2 || s[0] == 0xe3) ==> trim_start(s) == s,
        s.len() > 0 && !((0x09 <= s.last() && s.last() <= 0x0d) || s.last() == 0x20 || s.last()
            == 0x85 || s.last() == 0xa0 || (0x80 <= s.last() && s.last() <= 0x8a) || s.last()
            == 0xa8 || s.last() == 0xa9 || s.last() == 0xaf || s.last() == 0x9f) ==> trim_end(s)
            == s,
{
    let e = unicode_white_space_utf8()[k];
    assert(is_ws_encoding(e));
    let run = seq![e];
    assert(all_ws_encodings(run));
    run.lemma_flatten_one_element();
    assert(run.flatten() == e);
    lemma_trim_start_run(run, s);
    lemma_trim_end_run(s, run);
    if s.len() > 0 {
        assert(s[s.len() - 1] == s.last());
    }
}

/// The length of the white-space encoding that starts at `lo` in `b[lo..hi]`.
fn ws_len_front(b: &[u8], lo: usize, hi: usize) -> (k: usize)
    requires
        lo <= hi <= b@.len(),
    ensures
        k == ws_len_at_start(b@.subrange(lo as int, hi as int)),
{
    let n = hi - lo;
    if n >= 1 && ((0x09 <= b[lo] && b[lo] <= 0x0d) || b[lo] == 0x20) {
        1
    } else if n >= 2 && b[lo] == 0xc2 && (b[lo + 1] == 0x85 || b[lo + 1] == 0xa0) {
        2
    } else if n >= 3 && {
        let (x, y, z) = (b[lo], b[lo + 1], b[lo + 2]);
        (x == 0xe1 && y == 0x9a && z == 0x80) || (x == 0xe2 && y == 0x80 && ((0x80 <= z && z
            <= 0x8a) || z == 0xa8 || z == 0xa9 || z == 0xaf)) || (x == 0xe2 && y == 0x81 && z
            == 0x9f) || (x == 0xe3 && y == 0x80 && z == 0x80)
    } {
        3
    } else {
        0
    }
}

/// The length of the white-space encoding that ends at `hi` in `b[lo..hi]`.
fn ws_len_back(b: &[u8], lo: usize, hi: usize) -> (k: usize)
    requires
        lo <= hi <= b@.len(),
    ensures
        k == ws_len_at_end(b@.subrange(lo as int, hi as int)),
{
    let n = hi - lo;
    if n >= 1 && ((0x09 <= b[hi - 1] && b[hi - 1] <= 0x0d) || b[hi - 1] == 0x20) {
        1
    } else if n >= 2 && b[hi - 2] == 0xc2 && (b[hi - 1] == 0x85 || b[hi - 1] == 0xa0) {
        2
    } else if n >= 3 && {
        let (x, y, z) = (b[hi - 3], b[hi - 2], b[hi - 1]);
        (x == 0xe1 && y == 0x9a && z == 0x80) || (x == 0xe2 && y == 0x80 && ((0x80 <= z && z
            <= 0x8a) || z == 0xa8 || z == 0xa9 || z == 0xaf)) || (x == 0xe2 && y == 0x81 && z
            == 0x9f) || (x == 0xe3 && y == 0x80 && z == 0x80)
    } {
        3
    } else {
        0
    }
}

/// The bounds of `b` once white space is trimmed from both ends.
pub fn trim_bounds(b: &[u8]) -> (r: (usize, usize))
    ensures
        r.0 <= r.1 <= b@.len(),
        b@.subrange(r.0 as int, r.1 as int) == trimmed(b@),
{
    let len = b.len();
    let mut i: usize = 0;
    assert(b@.subrange(0, len as int) =~= b@);
    while i < len
        invariant
            len == b@.len(),
            i <= len,
            trim_start(b@) == trim_start(b@.subrange(i as int, len as int)),
        ensures
            i <= len,
            trim_start(b@) == b@.subrange(i as int, len as int),
        decreases len - i,
    {
        let k = ws_len_front(b, i, len);
        if k == 0 {
            break;
        }
        assert(b@.subrange(i as int, len as int).skip(k as int) =~= b@.subrange(
            (i + k) as int,
            len as int,
        ));
        i = i + k;
    }
    let mut j: usize = len;
    while j > i
        invariant
            len == b@.len(),
            i <= j <= len,
            trim_start(b@) == b@.subrange(i as int, len as int),
            trimmed(b@) == trim_end(b@.subrange(i as int, j as int)),
        ensures
            i <= j <= len,
            trimmed(b@) == b@.subrange(i as int, j as int),
        decreases j - i,
    {
        let k = ws_len_back(b, i, j);
        if k == 0 {
            break;
        }
        assert(b@.subrange(i as int, j as int).take(j - i - k) =~= b@.subrange(
            i as int,
            (j - k) as int,
        ));
        j = j - k;
    }
    (i, j)
}

/// Whether `b[lo..hi]` is exactly `word`.
pub fn range_equals(b: &[u8], lo: usize, hi: usize, word: &[u8]) -> (r: bool)
    requires
        lo <= hi <= b@.len(),
    ensures
        r == (b@.subrange(lo as int, hi as int) == word@),
{
    if hi - lo != word.len() {
        return false;
    }
    let mut k: usize = 0;
    while k < word.len()
        invariant
            lo <= hi <= b@.len(),
            hi - lo == word@.len(),
            k <= word@.len(),
            forall|m: int| 0 <= m < k ==> b@[lo + m] == word@[m],
        decreases word@.len() - k,
    {
        if b[lo + k] != word[k] {
            assert(b@.subrange(lo as int, hi as int)[k as int] != word@[k as int]);
            return false;
        }
        k = k + 1;
    }
    assert(b@.subrange(lo as int, hi as int) =~= word@);
    true
}

} // verus!
