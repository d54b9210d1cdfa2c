//! Comparing and cutting strings, stated over their characters.

use vstd::prelude::*;
use vstd::string::*;

verus! {

/// Where the last segment of `s` begins: right after the last `sep`, or at 0
/// if `s` holds no `sep`.
pub open spec fn segment_start(s: Seq<char>, sep: char) -> int
    decreases s.len(),
{
    if s.len() == 0 {
        0
    } else if s.last() == sep {
        s.len() as int
    } else {
        segment_start(s.drop_last(), sep)
    }
}

/// What follows the last `sep` in `s`; all of `s` if it holds no `sep`.
pub open spec fn last_segment(s: Seq<char>, sep: char) -> Seq<char> {
    s.subrange(segment_start(s, sep), s.len() as int)
}

/// The last segment is the longest ending of `s` that is free of `sep`.
pub proof fn lemma_last_segment(s: Seq<char>, sep: char)
    ensures
        0 <= segment_start(s, sep) <= s.len(),
        last_segment(s, sep).is_suffix_of(s),
        !last_segment(s, sep).contains(sep),
        segment_start(s, sep) > 0 ==> s[segment_start(s, sep) - 1] == sep,
    decreases s.len(),
{
    let seg = last_segment(s, sep);
    if s.len() == 0 {
    } else if s.last() == sep {
    } else {
        let t = s.drop_last();
        lemma_last_segment(t, sep);
        assert forall|i: int| 0 <= i < seg.len() implies seg[i] != sep by {
            if i < seg.len() - 1 {
                assert(last_segment(t, sep)[i] == seg[i]);
            }
        }
    }
}

/// Whether two strings hold the same characters.
pub fn str_eq(a: &str, b: &str) -> (same: bool)
    ensures
        same == (a@ == b@),
{
    let x = a.as_bytes();
    let y = b.as_bytes();
    proof {
        vstd::utf8::encode_utf8_decode_utf8(a@);
        vstd::utf8::encode_utf8_decode_utf8(b@);
    }
    if x.len() != y.len() {
        return false;
    }
    let mut i: usize = 0;
    while i < x.len()
        invariant
            0 <= i <= x.len(),
            x.len() == y.len(),
            forall|j: int| 0 <= j < i ==> x@[j] == y@[j],
            x@ == a.spec_bytes(),
            y@ == b.spec_bytes(),
            vstd::utf8::decode_utf8(a.spec_bytes()) == a@,
            vstd::utf8::decode_utf8(b.spec_bytes()) == b@,
        decreases x.len() - i,
    {
        if x[i] != y[i] {
            return false;
        }
        i = i + 1;
    }
    assert(x@ =~= y@);
    true
}

/// Whether `s` begins with `prefix`.
pub fn starts_with(s: &str, prefix: &str) -> (yes: bool)
    ensures
        yes == prefix@.is_prefix_of(s@),
{
    let n = s.unicode_len();
    let m = prefix.unicode_len();
    if m > n {
        return false;
    }
    str_eq(s.substring_char(0, m), prefix)
}

/// Whether `s` ends with `suffix`.
pub fn ends_with(s: &str, suffix: &str) -> (yes: bool)
    ensures
        yes == suffix@.is_suffix_of(s@),
{
    let n = s.unicode_len();
    let m = suffix.unicode_len();
    if m > n {
        return false;
    }
    str_eq(s.substring_char(n - m, n), suffix)
}

/// The part of `s` after its last `sep`; all of `s` if it holds no `sep`.
pub fn after_last<'a>(s: &'a str, sep: char) -> (seg: &'a str)
    ensures
        seg@ == last_segment(s@, sep),
{
    broadcast use vstd::string::group_string_axioms;

    let n = s.unicode_len();
    let mut start: usize = 0;
    let mut seen: usize = 0;
    for c in it: s.chars()
        invariant
            it.seq() == s@,
            n == s@.len(),
            seen == it.index(),
            start == segment_start(s@.take(seen as int), sep),
    {
        assert(s@.take(seen + 1).drop_last() =~= s@.take(seen as int));
        seen = seen + 1;
        if c == sep {
            start = seen;
        }
    }
    proof {
        assert(s@.take(seen as int) =~= s@);
        lemma_last_segment(s@, sep);
    }
    s.substring_char(start, seen)
}

/// Whether `c` is white space: one of the characters to which Unicode gives
/// the property `White_Space`.
pub open spec fn is_white_space(c: char) -> bool {
    let n = c as u32;
    (0x09 <= n <= 0x0d) || n == 0x20 || n == 0x85 || n == 0xa0 || n == 0x1680 || (0x2000 <= n
        <= 0x200a) || n == 0x2028 || n == 0x2029 || n == 0x202f || n == 0x205f || n == 0x3000
}

/// The place of the first character of `s` that is no white space: the
/// length of `s` if it holds nothing else.
pub open spec fn solid_start(s: Seq<char>) -> int
    decreases s.len(),
{
    if s.len() == 0 {
        0
    } else if solid_start(s.drop_last()) < s.len() - 1 {
        solid_start(s.drop_last())
    } else if is_white_space(s.last()) {
        s.len() as int
    } else {
        s.len() - 1
    }
}

/// The place behind the last character of `s` that is no white space: 0 if
/// it holds nothing else.
pub open spec fn solid_end(s: Seq<char>) -> int
    decreases s.len(),
{
    if s.len() == 0 {
        0
    } else if !is_white_space(s.last()) {
        s.len() as int
    } else {
        solid_end(s.drop_last())
    }
}

/// `s` without the white space at its beginning and at its end.
pub open spec fn trimmed(s: Seq<char>) -> Seq<char> {
    if solid_start(s) < solid_end(s) {
        s.subrange(solid_start(s), solid_end(s))
    } else {
        Seq::empty()
    }
}

/// What is cut off at either end is white space and nothing else: the
/// characters in front of the first place and from the last place on are
/// white space, and the characters next to them inside are not.
pub proof fn lemma_trimmed(s: Seq<char>)
    ensures
        0 <= solid_start(s) <= s.len(),
        0 <= solid_end(s) <= s.len(),
        forall|i: int| 0 <= i < solid_start(s) ==> is_white_space(#[trigger] s[i]),
        solid_start(s) < s.len() ==> !is_white_space(s[solid_start(s)]),
        forall|i: int| solid_end(s) <= i < s.len() ==> is_white_space(#[trigger] s[i]),
        solid_end(s) > 0 ==> !is_white_space(s[solid_end(s) - 1]),
    decreases s.len(),
{
    if s.len() > 0 {
        lemma_trimmed(s.drop_last());
        let front = s.drop_last();
        assert forall|i: int| 0 <= i < solid_start(s) implies is_white_space(#[trigger] s[i]) by {
            if i < front.len() {
                assert(s[i] == front[i]);
            }
        }
        assert forall|i: int| solid_end(s) <= i < s.len() implies is_white_space(
            #[trigger] s[i],
        ) by {
            if i < front.len() {
                assert(s[i] == front[i]);
            }
        }
    }
}

/// A string that neither begins nor ends with white space is left as it is.
pub proof fn lemma_trimmed_solid(s: Seq<char>)
    requires
        s.len() > 0,
        !is_white_space(s[0]),
        !is_white_space(s.last()),
    ensures
        trimmed(s) == s,
{
    lemma_trimmed(s);
}

/// Whether `c` is white space.
pub fn white_space(c: char) -> (yes: bool)
    ensures
        yes == is_white_space(c),
{
    let n = c as u32;
    (0x09 <= n && n <= 0x0d) || n == 0x20 || n == 0x85 || n == 0xa0 || n == 0x1680 || (0x2000 <= n
        && n <= 0x200a) || n == 0x2028 || n == 0x2029 || n == 0x202f || n == 0x205f || n
        == 0x3000
}

/// `s` without the white space at its beginning and at its end.
pub fn trim<'a>(s: &'a str) -> (cut: &'a str)
    ensures
        cut@ == trimmed(s@),
{
    broadcast use vstd::string::group_string_axioms;

    let n = s.unicode_len();
    let mut start: usize = 0;
    let mut end: usize = 0;
    let mut seen: usize = 0;
    for c in it: s.chars()
        invariant
            it.seq() == s@,
            n == s@.len(),
            seen == it.index(),
            start == solid_start(s@.take(seen as int)),
            end == solid_end(s@.take(seen as int)),
            start <= seen,
            end <= seen,
    {
        assert(s@.take(seen + 1).drop_last() =~= s@.take(seen as int));
        if white_space(c) {
            if start == seen {
                start = seen + 1;
            }
        } else {
            end = seen + 1;
        }
        seen = seen + 1;
    }
    assert(s@.take(seen as int) =~= s@);
    if start < end {
        s.substring_char(start, end)
    } else {
        s.substring_char(0, 0)
    }
}

} // verus!
