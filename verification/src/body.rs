//! Which bodies are handed to the feed reader.
//!
//! The reader takes a feed apart element by element. Three kinds of body
//! lead it astray: one that speaks of the update period or the update
//! frequency of the syndication module, whose texts it takes for granted; one
//! with an element inside an element that has a prefix, into which it
//! descends one call deeper for each level; and one so long that the depth of
//! its elements does not fit the counter. All are told from the bytes, with
//! room to spare: a body that only looks as if it were of such a kind is left
//! out as well.

use vstd::prelude::*;
use vstd::string::*;

verus! {

/// The length up to which a body is read: the depth of its elements is
/// counted in 32 bits with a sign.
pub const MAX_BODY: usize = 0x7fff_ffff;

/// `<`, which begins a tag.
pub const LESS: u8 = 0x3c;

/// `>`, which ends a tag.
pub const GREATER: u8 = 0x3e;

/// `/`, which begins a closing tag and ends a tag that closes its element.
pub const SLASH: u8 = 0x2f;

/// `!`, which begins a comment and other declarations.
pub const BANG: u8 = 0x21;

/// `?`, which begins a processing instruction.
pub const QUERY: u8 = 0x3f;

/// `:`, which parts a prefix from a name.
pub const COLON: u8 = 0x3a;

/// `"`.
pub const DOUBLE: u8 = 0x22;

/// `'`.
pub const SINGLE: u8 = 0x27;

/// A space.
pub const SPACE: u8 = 0x20;

/// A carriage return.
pub const RETURN: u8 = 0x0d;

/// A line feed.
pub const NEWLINE: u8 = 0x0a;

/// A tab.
pub const TAB: u8 = 0x09;

/// White space between the parts of a tag.
pub open spec fn is_blank(b: u8) -> bool {
    b == SPACE || b == RETURN || b == NEWLINE || b == TAB
}

/// A quotation mark, which begins and ends the value of an attribute.
pub open spec fn is_quote(b: u8) -> bool {
    b == DOUBLE || b == SINGLE
}

/// Whether `word` stands in `bytes` at `i`.
pub open spec fn word_at(bytes: Seq<u8>, word: Seq<u8>, i: int) -> bool {
    0 <= i && i + word.len() <= bytes.len() && bytes.subrange(i, i + word.len()) == word
}

/// Whether `word` stands anywhere in `bytes`.
pub open spec fn has_word(bytes: Seq<u8>, word: Seq<u8>) -> bool {
    exists|i: int| word_at(bytes, word, i)
}

/// Whether the tag that begins at `p` may open an element: `p` holds `<`, and
/// what follows is none of `/`, `!` and `?`, which begin the other tags.
pub open spec fn opens_at(bytes: Seq<u8>, p: int) -> bool {
    0 <= p && p + 1 < bytes.len() && bytes[p] == LESS && bytes[p + 1] != SLASH && bytes[p + 1]
        != BANG && bytes[p + 1] != QUERY
}

/// Where the name that begins at `from` ends for certain: at the first white
/// space, `>` or `<`, or with the bytes.
pub open spec fn name_end(bytes: Seq<u8>, from: int) -> int
    decreases bytes.len() - from,
{
    if from < 0 || from >= bytes.len() {
        bytes.len() as int
    } else if is_blank(bytes[from]) || bytes[from] == GREATER || bytes[from] == LESS {
        from
    } else {
        name_end(bytes, from + 1)
    }
}

/// Whether a colon or a quotation mark stands in `bytes` from `from` up to
/// `to`. A name with a colon has a prefix; after a quotation mark a name may
/// go on beyond a `>`.
pub open spec fn has_mark(bytes: Seq<u8>, from: int, to: int) -> bool {
    exists|i: int| from <= i < to && 0 <= i < bytes.len() && (bytes[i] == COLON || is_quote(bytes[i]))
}

/// Whether the tag at `p` may open an element whose name has a prefix: a
/// colon or a quotation mark stands in what is its name for certain, or that
/// runs into a `<`, behind which the name may go on.
pub open spec fn opens_prefixed_at(bytes: Seq<u8>, p: int) -> bool {
    let end = name_end(bytes, p + 1);
    opens_at(bytes, p) && (has_mark(bytes, p + 1, end) || (end < bytes.len() && bytes[end] == LESS))
}

/// Where the tag ends whose inside goes on at `from`: at the first `>` that
/// stands outside the values of attributes, or with the bytes. `quote` is the
/// mark of the value that `from` lies in, if it lies in one.
pub open spec fn tag_end(bytes: Seq<u8>, from: int, quote: Option<u8>) -> int
    decreases bytes.len() - from,
{
    if from < 0 || from >= bytes.len() {
        bytes.len() as int
    } else {
        match quote {
            None => if bytes[from] == GREATER {
                from
            } else if is_quote(bytes[from]) {
                tag_end(bytes, from + 1, Some(bytes[from]))
            } else {
                tag_end(bytes, from + 1, None)
            },
            Some(mark) => if bytes[from] == mark {
                tag_end(bytes, from + 1, None)
            } else {
                tag_end(bytes, from + 1, quote)
            },
        }
    }
}

/// Where the next tag begins at or after `from`: at the first `<`, or
/// nowhere, which is the length of the bytes.
pub open spec fn next_tag(bytes: Seq<u8>, from: int) -> int
    decreases bytes.len() - from,
{
    if from < 0 || from >= bytes.len() {
        bytes.len() as int
    } else if bytes[from] == LESS {
        from
    } else {
        next_tag(bytes, from + 1)
    }
}

/// Whether the element that the tag at `p` opens has no element inside: the
/// tag comes to its end with no `<` in it, and it closes the element itself,
/// or the next tag is a closing tag, or there is no next tag.
pub open spec fn childless_at(bytes: Seq<u8>, p: int) -> bool {
    let end = tag_end(bytes, p + 1, None);
    let next = next_tag(bytes, end + 1);
    end < bytes.len() && end < next_tag(bytes, p + 1) && (bytes[end - 1] == SLASH || (next + 1
        < bytes.len() ==> bytes[next + 1] == SLASH))
}

/// Whether a body is handed to the feed reader: it is not longer than
/// [`MAX_BODY`], it names neither the update period nor the update frequency,
/// and wherever a tag may open an element with a prefix, that element has no
/// element inside.
pub open spec fn readable(bytes: Seq<u8>) -> bool {
    &&& bytes.len() <= MAX_BODY
    &&& !has_word(bytes, "updatePeriod".spec_bytes())
    &&& !has_word(bytes, "updateFrequency".spec_bytes())
    &&& forall|p: int| #[trigger] opens_prefixed_at(bytes, p) ==> childless_at(bytes, p)
}

fn blank(b: u8) -> (yes: bool)
    ensures
        yes == is_blank(b),
{
    b == SPACE || b == RETURN || b == NEWLINE || b == TAB
}

fn quote(b: u8) -> (yes: bool)
    ensures
        yes == is_quote(b),
{
    b == DOUBLE || b == SINGLE
}

/// Whether `word` stands anywhere in `bytes`.
pub fn holds_word(bytes: &[u8], word: &[u8]) -> (found: bool)
    ensures
        found == has_word(bytes@, word@),
{
    if word.len() > bytes.len() {
        return false;
    }
    let last = bytes.len() - word.len();
    let mut i: usize = 0;
    while i <= last
        invariant
            0 <= i <= last + 1,
            last == bytes.len() - word.len(),
            forall|k: int| 0 <= k < i ==> !word_at(bytes@, word@, k),
        decreases last + 1 - i,
    {
        let mut j: usize = 0;
        while j < word.len() && bytes[i + j] == word[j]
            invariant
                0 <= j <= word.len(),
                i + word.len() <= bytes.len(),
                forall|k: int| 0 <= k < j ==> bytes@[i + k] == word@[k],
            decreases word.len() - j,
        {
            j = j + 1;
        }
        if j == word.len() {
            assert(bytes@.subrange(i as int, i + word.len()) =~= word@);
            assert(word_at(bytes@, word@, i as int));
            return true;
        }
        i = i + 1;
    }
    false
}

fn find_name_end(bytes: &[u8], from: usize) -> (end: usize)
    requires
        from <= bytes.len(),
    ensures
        end == name_end(bytes@, from as int),
        from <= end <= bytes.len(),
{
    let mut i: usize = from;
    while i < bytes.len() && !blank(bytes[i]) && bytes[i] != GREATER && bytes[i] != LESS
        invariant
            from <= i <= bytes.len(),
            name_end(bytes@, from as int) == name_end(bytes@, i as int),
        decreases bytes.len() - i,
    {
        i = i + 1;
    }
    i
}

fn find_mark(bytes: &[u8], from: usize, to: usize) -> (found: bool)
    requires
        from <= to <= bytes.len(),
    ensures
        found == has_mark(bytes@, from as int, to as int),
{
    let mut i: usize = from;
    while i < to
        invariant
            from <= i <= to <= bytes.len(),
            forall|k: int| from <= k < i ==> !(bytes@[k] == COLON || is_quote(bytes@[k])),
        decreases to - i,
    {
        if bytes[i] == COLON || quote(bytes[i]) {
            return true;
        }
        i = i + 1;
    }
    false
}

fn find_tag_end(bytes: &[u8], from: usize) -> (end: usize)
    requires
        from <= bytes.len(),
    ensures
        end == tag_end(bytes@, from as int, None),
        from <= end <= bytes.len(),
{
    let mut i: usize = from;
    let mut inside: Option<u8> = None;
    while i < bytes.len()
        invariant
            from <= i <= bytes.len(),
            tag_end(bytes@, from as int, None) == tag_end(bytes@, i as int, inside),
        decreases bytes.len() - i,
    {
        let b = bytes[i];
        match inside {
            None => {
                if b == GREATER {
                    return i;
                }
                if quote(b) {
                    inside = Some(b);
                }
            },
            Some(mark) => {
                if b == mark {
                    inside = None;
                }
            },
        }
        i = i + 1;
    }
    i
}

fn find_next_tag(bytes: &[u8], from: usize) -> (next: usize)
    requires
        from <= bytes.len(),
    ensures
        next == next_tag(bytes@, from as int),
        from <= next <= bytes.len(),
{
    let mut i: usize = from;
    while i < bytes.len() && bytes[i] != LESS
        invariant
            from <= i <= bytes.len(),
            next_tag(bytes@, from as int) == next_tag(bytes@, i as int),
        decreases bytes.len() - i,
    {
        i = i + 1;
    }
    i
}

fn opens_prefixed(bytes: &[u8], p: usize) -> (yes: bool)
    requires
        p < bytes.len(),
    ensures
        yes == opens_prefixed_at(bytes@, p as int),
{
    if bytes[p] != LESS || p + 1 >= bytes.len() {
        return false;
    }
    let b = bytes[p + 1];
    if b == SLASH || b == BANG || b == QUERY {
        return false;
    }
    let end = find_name_end(bytes, p + 1);
    if end < bytes.len() && bytes[end] == LESS {
        return true;
    }
    find_mark(bytes, p + 1, end)
}

fn childless(bytes: &[u8], p: usize) -> (yes: bool)
    requires
        opens_at(bytes@, p as int),
    ensures
        yes == childless_at(bytes@, p as int),
{
    let len = bytes.len();
    let end = find_tag_end(bytes, p + 1);
    if end >= len || find_next_tag(bytes, p + 1) <= end {
        return false;
    }
    if bytes[end - 1] == SLASH {
        return true;
    }
    let next = find_next_tag(bytes, end + 1);
    if next >= len - 1 {
        true
    } else {
        bytes[next + 1] == SLASH
    }
}

/// Whether a body is handed to the feed reader.
pub fn is_readable(bytes: &[u8]) -> (ok: bool)
    ensures
        ok == readable(bytes@),
{
    if bytes.len() > MAX_BODY {
        return false;
    }
    if holds_word(bytes, "updatePeriod".as_bytes()) {
        return false;
    }
    if holds_word(bytes, "updateFrequency".as_bytes()) {
        return false;
    }
    let mut p: usize = 0;
    while p < bytes.len()
        invariant
            0 <= p <= bytes.len(),
            forall|q: int|
                0 <= q < p && #[trigger] opens_prefixed_at(bytes@, q) ==> childless_at(bytes@, q),
        decreases bytes.len() - p,
    {
        if opens_prefixed(bytes, p) {
            if !childless(bytes, p) {
                return false;
            }
        }
        p = p + 1;
    }
    true
}

} // verus!
