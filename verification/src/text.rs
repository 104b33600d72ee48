//! Character-level text operations on `str`: whitespace trimming, previews
//! and menu labels.

use vstd::prelude::*;
use vstd::utf8::*;

verus! {

/// The characters that `char::is_whitespace` accepts: ASCII space, tab,
/// line feed, vertical tab, form feed and carriage return, and the code
/// points of the Unicode `White_Space` property above `0x7f`.
pub open spec fn is_space(c: char) -> bool {
    let v = c as u32;
    ||| v == 0x20
    ||| 0x09 <= v <= 0x0d
    ||| v == 0x85
    ||| v == 0xa0
    ||| v == 0x1680
    ||| 0x2000 <= v <= 0x200a
    ||| v == 0x2028
    ||| v == 0x2029
    ||| v == 0x202f
    ||| v == 0x205f
    ||| v == 0x3000
}

/// `s` without its leading whitespace.
pub open spec fn trim_start(s: Seq<char>) -> Seq<char>
    decreases s.len(),
{
    if s.len() > 0 && is_space(s[0]) {
        trim_start(s.drop_first())
    } else {
        s
    }
}

/// `s` without its trailing whitespace.
pub open spec fn trim_end(s: Seq<char>) -> Seq<char>
    decreases s.len(),
{
    if s.len() > 0 && is_space(s.last()) {
        trim_end(s.drop_last())
    } else {
        s
    }
}

/// `s` without leading and trailing whitespace, as `str::trim` returns it.
pub open spec fn trimmed(s: Seq<char>) -> Seq<char> {
    trim_end(trim_start(s))
}

/// Whether `c` is whitespace in the sense of `is_space`.
pub fn is_space_char(c: char) -> (r: bool)
    ensures
        r == is_space(c),
{
    let v = c as u32;
    v == 0x20 || (0x09 <= v && v <= 0x0d) || v == 0x85 || v == 0xa0 || v == 0x1680 || (0x2000
        <= v && v <= 0x200a) || v == 0x2028 || v == 0x2029 || v == 0x202f || v == 0x205f || v
        == 0x3000
}

/// The characters of `s`, in order.
pub fn chars_of(s: &str) -> (v: Vec<char>)
    ensures
        v@ == s@,
{
    let mut v: Vec<char> = Vec::new();
    for c in iter: s.chars()
        invariant
            iter.seq() == s@,
            v@ == iter.seq().take(iter.index() as int),
    {
        v.push(c);
    }
    v
}


proof fn lemma_trim_start_skip(s: Seq<char>, i: int)
    requires
        0 <= i <= s.len(),
        forall|k: int| 0 <= k < i ==> is_space(#[trigger] s[k]),
    ensures
        trim_start(s) == trim_start(s.subrange(i, s.len() as int)),
    decreases i,
{
    if i > 0 {
        assert(s.drop_first().subrange(i - 1, s.drop_first().len() as int) =~= s.subrange(
            i,
            s.len() as int,
        ));
        lemma_trim_start_skip(s.drop_first(), i - 1);
    } else {
        assert(s.subrange(0, s.len() as int) =~= s);
    }
}

proof fn lemma_trim_end_cut(s: Seq<char>, j: int)
    requires
        0 <= j <= s.len(),
        forall|k: int| j <= k < s.len() ==> is_space(#[trigger] s[k]),
    ensures
        trim_end(s) == trim_end(s.subrange(0, j)),
    decreases s.len() - j,
{
    if j < s.len() {
        assert(s.drop_last().subrange(0, j) =~= s.subrange(0, j));
        lemma_trim_end_cut(s.drop_last(), j);
    } else {
        assert(s.subrange(0, j) =~= s);
    }
}

/// `s` without leading and trailing whitespace (what `str::trim` returns).
pub fn trim(s: &str) -> (r: &str)
    ensures
        r@ == trimmed(s@),
        exists|a: int, b: int|
            {
                &&& 0 <= a <= b <= s@.len()
                &&& r@ == s@.subrange(a, b)
                &&& forall|k: int| 0 <= k < a ==> is_space(#[trigger] s@[k])
                &&& forall|k: int| b <= k < s@.len() ==> is_space(#[trigger] s@[k])
            },
        r@.len() > 0 ==> !is_space(r@[0]) && !is_space(r@.last()),
{
    let cs = chars_of(s);
    let n = cs.len();
    let mut start: usize = 0;
    while start < n && is_space_char(cs[start])
        invariant
            cs@ == s@,
            n == cs.len(),
            start <= n,
            forall|k: int| 0 <= k < start ==> is_space(#[trigger] cs@[k]),
        decreases n - start,
    {
        start = start + 1;
    }
    let ghost rest = s@.subrange(start as int, n as int);
    proof {
        lemma_trim_start_skip(s@, start as int);
        if rest.len() > 0 {
            assert(rest[0] == cs@[start as int]);
        }
        assert(trim_start(s@) == rest);
    }
    let mut end: usize = n;
    while end > start && is_space_char(cs[end - 1])
        invariant
            cs@ == s@,
            n == cs.len(),
            start <= end <= n,
            rest == s@.subrange(start as int, n as int),
            forall|k: int| end <= k < n ==> is_space(#[trigger] cs@[k]),
        decreases end - start,
    {
        end = end - 1;
    }
    proof {
        let e = end - start;
        assert forall|k: int| e <= k < rest.len() implies is_space(#[trigger] rest[k]) by {
            assert(rest[k] == cs@[k + start]);
        }
        lemma_trim_end_cut(rest, e);
        let cut = rest.subrange(0, e);
        assert(cut =~= s@.subrange(start as int, end as int));
        if cut.len() > 0 {
            assert(cut.last() == cs@[end - 1]);
            assert(cut[0] == cs@[start as int]);
        }
        assert forall|k: int| end <= k < s@.len() implies is_space(#[trigger] s@[k]) by {
            assert(s@[k] == cs@[k]);
        }
        assert forall|k: int| 0 <= k < start implies is_space(#[trigger] s@[k]) by {
            assert(s@[k] == cs@[k]);
        }
        assert(exists|a: int, b: int|
            {
                &&& 0 <= a <= b <= s@.len()
                &&& cut == s@.subrange(a, b)
                &&& forall|k: int| 0 <= k < a ==> is_space(#[trigger] s@[k])
                &&& forall|k: int| b <= k < s@.len() ==> is_space(#[trigger] s@[k])
            }) by {
            assert(cut == s@.subrange(start as int, end as int));
        }
    }
    s.substring_char(start, end)
}

} // verus!

verus! {

/// Calls `String::from_utf8`, turning its error into `None`.
///
/// std documents that it succeeds exactly when the bytes are valid UTF-8 and
/// then holds the characters they encode; `valid_utf8` and `decode_utf8` are
/// vstd's statement of UTF-8.
#[verifier::external_body]
pub(crate) fn string_from_utf8(bytes: Vec<u8>) -> (r: Option<String>)
    ensures
        r is Some <==> valid_utf8(bytes@),
        r matches Some(s) ==> s@ == decode_utf8(bytes@),
{
    String::from_utf8(bytes).ok()
}

/// Calls `String::push`, which appends one character.
#[verifier::external_body]
pub(crate) fn push_char(s: &mut String, c: char)
    ensures
        final(s)@ == old(s)@.push(c),
{
    s.push(c);
}

/// The characters of `bytes` read as UTF-8, or `None` where they are not
/// valid UTF-8.
pub open spec fn utf8_text(bytes: Seq<u8>) -> Option<Seq<char>> {
    if valid_utf8(bytes) {
        Some(decode_utf8(bytes))
    } else {
        None
    }
}

/// Reading the UTF-8 encoding of a text gives the text back.
pub proof fn lemma_utf8_round_trip(t: Seq<char>)
    ensures
        utf8_text(encode_utf8(t)) == Some(t),
{
    encode_utf8_valid_utf8(t);
    encode_utf8_decode_utf8(t);
}

} // verus!

verus! {

proof fn lemma_encode_concat_len(x: Seq<char>, y: Seq<char>)
    ensures
        encode_utf8(x + y).len() == encode_utf8(x).len() + encode_utf8(y).len(),
    decreases x.len(),
{
    if x.len() > 0 {
        assert((x + y).drop_first() =~= x.drop_first() + y);
        assert((x + y)[0] == x[0]);
        lemma_encode_concat_len(x.drop_first(), y);
    } else {
        assert(x + y =~= y);
    }
}

/// A piece of a text takes no more UTF-8 bytes than the whole text.
pub proof fn lemma_encode_subrange_len(s: Seq<char>, a: int, b: int)
    requires
        0 <= a <= b <= s.len(),
    ensures
        encode_utf8(s.subrange(a, b)).len() <= encode_utf8(s).len(),
{
    let x = s.subrange(0, a);
    let m = s.subrange(a, b);
    let z = s.subrange(b, s.len() as int);
    assert(s =~= x + m + z);
    lemma_encode_concat_len(x + m, z);
    lemma_encode_concat_len(x, m);
}

proof fn lemma_trim_start_is_suffix(s: Seq<char>)
    ensures
        exists|a: int| 0 <= a <= s.len() && trim_start(s) == s.subrange(a, s.len() as int),
    decreases s.len(),
{
    if s.len() > 0 && is_space(s[0]) {
        lemma_trim_start_is_suffix(s.drop_first());
        let a = choose|a: int|
            0 <= a <= s.drop_first().len() && trim_start(s.drop_first()) == s.drop_first().subrange(
                a,
                s.drop_first().len() as int,
            );
        assert(s.drop_first().subrange(a, s.drop_first().len() as int) =~= s.subrange(
            a + 1,
            s.len() as int,
        ));
    } else {
        assert(s.subrange(0, s.len() as int) =~= s);
    }
}

proof fn lemma_trim_end_is_prefix(s: Seq<char>)
    ensures
        exists|b: int| 0 <= b <= s.len() && trim_end(s) == s.subrange(0, b),
    decreases s.len(),
{
    if s.len() > 0 && is_space(s.last()) {
        lemma_trim_end_is_prefix(s.drop_last());
        let b = choose|b: int|
            0 <= b <= s.drop_last().len() && trim_end(s.drop_last()) == s.drop_last().subrange(
                0,
                b,
            );
        assert(s.drop_last().subrange(0, b) =~= s.subrange(0, b));
    } else {
        assert(s.subrange(0, s.len() as int) =~= s);
    }
}

/// A trimmed text takes no more UTF-8 bytes than the text.
pub proof fn lemma_trimmed_len(s: Seq<char>)
    ensures
        encode_utf8(trimmed(s)).len() <= encode_utf8(s).len(),
{
    lemma_trim_start_is_suffix(s);
    let a = choose|a: int| 0 <= a <= s.len() && trim_start(s) == s.subrange(a, s.len() as int);
    let st = trim_start(s);
    lemma_trim_end_is_prefix(st);
    let b = choose|b: int| 0 <= b <= st.len() && trim_end(st) == st.subrange(0, b);
    assert(st.subrange(0, b) =~= s.subrange(a, a + b));
    lemma_encode_subrange_len(s, a, a + b);
}

} // verus!
