//! Text as sequences of characters: collecting the characters of a string,
//! comparing two strings and testing for a contiguous substring.

use vstd::prelude::*;

verus! {

/// `needle` stands in `hay` at position `at`: the `needle.len()` characters
/// of `hay` from `at` on are those of `needle`.
pub open spec fn occurs_at(hay: Seq<char>, needle: Seq<char>, at: int) -> bool {
    &&& 0 <= at
    &&& at + needle.len() <= hay.len()
    &&& hay.subrange(at, at + needle.len()) == needle
}

/// `needle` is a contiguous part of `hay`. The empty text is a part of
/// every text.
pub open spec fn has_substring(hay: Seq<char>, needle: Seq<char>) -> bool {
    exists|at: int| occurs_at(hay, needle, at)
}

/// `c` is one of the characters of `text`.
pub open spec fn has_char(text: Seq<char>, c: char) -> bool {
    exists|i: int| 0 <= i < text.len() && text[i] == c
}

/// The number of characters of `text` that stand before its first `c`; the
/// length of `text` where it holds none.
pub open spec fn first_position(text: Seq<char>, c: char) -> nat
    decreases text.len(),
{
    if text.len() == 0 || text[0] == c {
        0
    } else {
        1 + first_position(text.drop_first(), c)
    }
}

/// `first_position` is the place of a `c`, or the end of the text, and no
/// `c` stands before it.
pub proof fn lemma_first_position(text: Seq<char>, c: char)
    ensures
        first_position(text, c) <= text.len(),
        first_position(text, c) < text.len() ==> text[first_position(text, c) as int] == c,
        forall|j: int| 0 <= j < first_position(text, c) ==> text[j] != c,
        first_position(text, c) < text.len() <==> has_char(text, c),
    decreases text.len(),
{
    if text.len() == 0 || text[0] == c {
    } else {
        let rest = text.drop_first();
        lemma_first_position(rest, c);
        assert forall|j: int| 0 <= j < first_position(text, c) implies text[j] != c by {
            if j > 0 {
                assert(text[j] == rest[j - 1]);
            }
        }
    }
}

/// A place with no `c` before it, which is the end of the text or holds a
/// `c`, is `first_position`.
pub proof fn lemma_first_position_is(text: Seq<char>, c: char, k: int)
    requires
        0 <= k <= text.len(),
        forall|j: int| 0 <= j < k ==> text[j] != c,
        k < text.len() ==> text[k] == c,
    ensures
        first_position(text, c) == k,
        k < text.len() <==> has_char(text, c),
{
    lemma_first_position(text, c);
}

/// A part of a part is a part: what occurs in a stretch of `hay` occurs in
/// `hay` itself.
pub proof fn lemma_substring_of_subrange(
    hay: Seq<char>,
    from: int,
    to: int,
    needle: Seq<char>,
)
    requires
        0 <= from <= to <= hay.len(),
        has_substring(hay.subrange(from, to), needle),
    ensures
        has_substring(hay, needle),
{
    let part = hay.subrange(from, to);
    let at = choose|at: int| occurs_at(part, needle, at);
    assert(hay.subrange(from + at, from + at + needle.len()) =~= part.subrange(
        at,
        at + needle.len(),
    ));
    assert(occurs_at(hay, needle, from + at));
}

/// The characters of `s`, in order.
pub fn chars_of(s: &str) -> (out: Vec<char>)
    ensures
        out@ == s@,
{
    let mut out: Vec<char> = Vec::new();
    for c in it: s.chars()
        invariant
            out@ == it.seq().take(it.index()),
            it.seq() == s@,
    {
        out.push(c);
    }
    out
}

/// Whether `needle` stands in `hay` at position `at`.
fn matches_at(hay: &Vec<char>, needle: &Vec<char>, at: usize) -> (found: bool)
    requires
        at + needle.len() <= hay.len(),
    ensures
        found == occurs_at(hay@, needle@, at as int),
{
    let mut j: usize = 0;
    while j < needle.len()
        invariant
            j <= needle.len(),
            at + needle.len() <= hay.len(),
            forall|k: int| 0 <= k < j ==> hay@[at + k] == needle@[k],
        decreases needle.len() - j,
    {
        if hay[at + j] != needle[j] {
            return false;
        }
        j += 1;
    }
    assert(hay@.subrange(at as int, at + needle.len()) =~= needle@);
    true
}

/// Whether the characters of `needle` occur, in order and side by side,
/// among those of `hay`.
fn contains_chars(hay: &Vec<char>, needle: &Vec<char>) -> (found: bool)
    ensures
        found == has_substring(hay@, needle@),
{
    if needle.len() > hay.len() {
        return false;
    }
    let last: usize = hay.len() - needle.len();
    let mut at: usize = 0;
    loop
        invariant
            last == hay.len() - needle.len(),
            needle.len() <= hay.len(),
            at <= last,
            forall|k: int| 0 <= k < at ==> !occurs_at(hay@, needle@, k),
        decreases last - at,
    {
        if matches_at(hay, needle, at) {
            return true;
        }
        if at == last {
            return false;
        }
        at += 1;
    }
}

/// Whether `needle` is a contiguous part of `hay`, character for character.
pub fn contains(hay: &str, needle: &str) -> (found: bool)
    ensures
        found == has_substring(hay@, needle@),
{
    let hay_chars = chars_of(hay);
    let needle_chars = chars_of(needle);
    contains_chars(&hay_chars, &needle_chars)
}

/// Whether `c` is one of the characters of `s`.
pub fn contains_char(s: &str, c: char) -> (found: bool)
    ensures
        found == has_char(s@, c),
{
    let chars = chars_of(s);
    let mut i: usize = 0;
    while i < chars.len()
        invariant
            i <= chars.len(),
            chars@ == s@,
            forall|k: int| 0 <= k < i ==> chars@[k] != c,
        decreases chars.len() - i,
    {
        if chars[i] == c {
            return true;
        }
        i += 1;
    }
    false
}

/// Whether `a` and `b` hold the same characters.
pub fn same_text(a: &str, b: &str) -> (same: bool)
    ensures
        same == (a@ == b@),
{
    let x = chars_of(a);
    let y = chars_of(b);
    if x.len() != y.len() {
        return false;
    }
    let mut i: usize = 0;
    while i < x.len()
        invariant
            i <= x.len(),
            x.len() == y.len(),
            x@ == a@,
            y@ == b@,
            forall|k: int| 0 <= k < i ==> x@[k] == y@[k],
        decreases x.len() - i,
    {
        if x[i] != y[i] {
            return false;
        }
        i += 1;
    }
    assert(x@ =~= y@);
    true
}

} // verus!
