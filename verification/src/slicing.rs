//! Cutting a string at a character position.
//!
//! Rust cuts a string at a byte offset. The functions here count that offset
//! from the width of each character in UTF-8, and the lemmas relate the
//! encoding of a text to the encodings of its parts.

use vstd::prelude::*;
use vstd::utf8::*;
use crate::text::{
    chars_of, first_position, has_char, lemma_first_position, lemma_first_position_is,
};

verus! {

/// The UTF-8 encoding of two texts joined is that of the first followed by
/// that of the second.
pub(crate) proof fn lemma_encode_concat(a: Seq<char>, b: Seq<char>)
    ensures
        encode_utf8(a + b) == encode_utf8(a) + encode_utf8(b),
    decreases a.len(),
{
    if a.len() > 0 {
        lemma_encode_concat(a.drop_first(), b);
        assert((a + b).drop_first() =~= a.drop_first() + b);
    }
}

/// The encoding of one character is the encoding of its scalar value.
pub(crate) proof fn lemma_encode_one(c: char)
    ensures
        encode_utf8(seq![c]) == encode_scalar(c as u32),
{
    assert(encode_utf8(seq![c].drop_first()) =~= Seq::<u8>::empty());
}

/// The encoding of a text begins with the encoding of each of its prefixes,
/// and the rest of it encodes what follows the prefix.
pub(crate) proof fn lemma_encode_split(text: Seq<char>, k: int)
    requires
        0 <= k <= text.len(),
    ensures
        encode_utf8(text) == encode_utf8(text.take(k)) + encode_utf8(text.skip(k)),
{
    assert(text =~= text.take(k) + text.skip(k));
    lemma_encode_concat(text.take(k), text.skip(k));
}

/// The encoding of a prefix of a text ends on a character boundary of the
/// text's encoding.
pub(crate) proof fn lemma_prefix_is_boundary(text: Seq<char>, k: int)
    requires
        0 <= k <= text.len(),
    ensures
        is_char_boundary(encode_utf8(text), encode_utf8(text.take(k)).len() as int),
    decreases k,
{
    let bytes = encode_utf8(text);
    encode_utf8_valid_utf8(text);
    if k == 0 {
    } else {
        let rest = text.drop_first();
        encode_utf8_first_scalar(text);
        assert(pop_first_scalar(bytes) =~= encode_utf8(rest));
        lemma_prefix_is_boundary(rest, k - 1);
        assert(text.take(k).drop_first() =~= rest.take(k - 1));
        lemma_encode_split(text, k);
    }
}

/// Two strings whose encodings are the two parts of a text's encoding, cut
/// where the encoding of its first `k` characters ends, hold those `k`
/// characters and the rest.
pub(crate) proof fn lemma_split_views(text: Seq<char>, head: Seq<char>, tail: Seq<char>, k: int)
    requires
        0 <= k <= text.len(),
        encode_utf8(head) == encode_utf8(text).subrange(
            0,
            encode_utf8(text.take(k)).len() as int,
        ),
        encode_utf8(tail) == encode_utf8(text).subrange(
            encode_utf8(text.take(k)).len() as int,
            encode_utf8(text).len() as int,
        ),
    ensures
        head == text.take(k),
        tail == text.skip(k),
{
    lemma_encode_split(text, k);
    assert(encode_utf8(head) =~= encode_utf8(text.take(k)));
    assert(encode_utf8(tail) =~= encode_utf8(text.skip(k)));
    encode_utf8_decode_utf8(head);
    encode_utf8_decode_utf8(tail);
    encode_utf8_decode_utf8(text.take(k));
    encode_utf8_decode_utf8(text.skip(k));
}

/// A stretch of a text takes no more bytes than the text.
pub(crate) proof fn lemma_part_no_longer(text: Seq<char>, from: int, to: int)
    requires
        0 <= from <= to <= text.len(),
    ensures
        encode_utf8(text.subrange(from, to)).len() <= encode_utf8(text).len(),
{
    lemma_encode_split(text, to);
    lemma_encode_split(text.take(to), from);
    assert(text.take(to).skip(from) =~= text.subrange(from, to));
}

/// The number of bytes that `c` takes in UTF-8.
pub(crate) fn utf8_width(c: char) -> (width: usize)
    ensures
        width == encode_scalar(c as u32).len(),
        1 <= width <= 4,
{
    proof {
        char_is_scalar(c);
    }
    let v: u32 = c as u32;
    if v < 0x80 {
        1
    } else if v < 0x800 {
        2
    } else if v < 0x10000 {
        3
    } else {
        4
    }
}

/// Cuts `s` after its first `k` characters, which take `offset` bytes.
pub(crate) fn split_at_char<'a>(s: &'a str, Ghost(k): Ghost<int>, offset: usize) -> (parts: (
    &'a str,
    &'a str,
))
    requires
        0 <= k <= s@.len(),
        offset == encode_utf8(s@.take(k)).len(),
    ensures
        parts.0@ == s@.take(k),
        parts.1@ == s@.skip(k),
{
    proof {
        lemma_prefix_is_boundary(s@, k);
    }
    let parts = s.split_at(offset);
    proof {
        lemma_split_views(s@, parts.0@, parts.1@, k);
    }
    parts
}

/// Reads `chars` from `start` up to the next `mark`, or to the end where
/// none follows: the place where the reading stops, and the number of bytes
/// that the characters read take in UTF-8. `total` is the number of bytes
/// that all of `chars` take.
pub(crate) fn find_from(chars: &Vec<char>, start: usize, mark: char, total: usize) -> (found: (
    usize,
    usize,
))
    requires
        start <= chars.len(),
        total == encode_utf8(chars@).len(),
    ensures
        start <= found.0 <= chars.len(),
        found.0 - start == first_position(chars@.skip(start as int), mark),
        found.1 == encode_utf8(chars@.subrange(start as int, found.0 as int)).len(),
{
    let n = chars.len();
    let mut end: usize = start;
    let mut width: usize = 0;
    while end < n && chars[end] != mark
        invariant
            start <= end <= n,
            n == chars.len(),
            total == encode_utf8(chars@).len(),
            width == encode_utf8(chars@.subrange(start as int, end as int)).len(),
            forall|j: int| start <= j < end ==> chars@[j] != mark,
        decreases n - end,
    {
        let w = utf8_width(chars[end]);
        proof {
            let read = chars@.subrange(start as int, end as int);
            assert(chars@.subrange(start as int, end + 1) =~= read + seq![chars@[end as int]]);
            lemma_encode_concat(read, seq![chars@[end as int]]);
            lemma_encode_one(chars@[end as int]);
            lemma_part_no_longer(chars@, start as int, end + 1);
        }
        width = width + w;
        end = end + 1;
    }
    proof {
        lemma_first_position_is(chars@.skip(start as int), mark, end - start);
    }
    (end, width)
}

/// Cuts `s` at the first `mark` in it: what stands before the mark, and what
/// stands after it. `None` where `s` holds no `mark`.
pub fn split_once_char<'a>(s: &'a str, mark: char) -> (parts: Option<(&'a str, &'a str)>)
    ensures
        parts is None <==> !has_char(s@, mark),
        parts matches Some((before, after)) ==> {
            &&& first_position(s@, mark) < s@.len()
            &&& before@ == s@.take(first_position(s@, mark) as int)
            &&& after@ == s@.skip(first_position(s@, mark) as int + 1)
        },
{
    let chars = chars_of(s);
    let total = s.as_bytes().len();
    let (at, offset) = find_from(&chars, 0, mark, total);
    proof {
        assert(s@.skip(0) =~= s@);
        lemma_first_position(s@, mark);
    }
    if at == chars.len() {
        return None;
    }
    let (before, tail) = split_at_char(s, Ghost(at as int), offset);
    let w = utf8_width(mark);
    proof {
        assert(tail@.take(1) =~= seq![mark]);
        lemma_encode_one(mark);
    }
    let (_, after) = split_at_char(tail, Ghost(1), w);
    Some((before, after))
}

} // verus!
