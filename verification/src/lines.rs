//! Splitting a text into its lines.
//!
//! A line ends at a line feed, or at a carriage return directly followed by
//! a line feed; neither belongs to the line. The last line needs no line
//! ending, and a text that ends in one has no empty line after it.
//!
//! The lines that [`lines`] returns are slices of the text it was given. It
//! cuts them out by byte offsets, which it counts from the width of each
//! character in UTF-8.

use vstd::prelude::*;
use vstd::utf8::encode_utf8;
use crate::slicing::{find_from, lemma_encode_concat, lemma_encode_one, split_at_char};
use crate::text::{chars_of, first_position, lemma_first_position, lemma_first_position_is};

verus! {

/// The number of characters of `text` that stand before its first line
/// feed; the length of `text` where it holds none.
pub open spec fn first_newline(text: Seq<char>) -> nat {
    first_position(text, '\n')
}

/// `line` without the carriage return that it may end in.
pub open spec fn without_carriage_return(line: Seq<char>) -> Seq<char> {
    if line.len() > 0 && line.last() == '\r' {
        line.drop_last()
    } else {
        line
    }
}

/// The lines of `text`, in order.
pub open spec fn lines_of(text: Seq<char>) -> Seq<Seq<char>>
    decreases text.len(),
{
    let k = first_newline(text) as int;
    if text.len() == 0 {
        Seq::empty()
    } else if k < text.len() {
        seq![without_carriage_return(text.take(k))] + lines_of(text.skip(k + 1))
    } else {
        seq![text]
    }
}

/// The texts that the strings of `items` hold.
pub open spec fn texts(items: Seq<&str>) -> Seq<Seq<char>> {
    items.map_values(|s: &str| s@)
}

/// A text without a line feed is its own single line, unless it is empty.
pub proof fn lemma_single_line(text: Seq<char>)
    requires
        text.len() > 0,
        forall|j: int| 0 <= j < text.len() ==> text[j] != '\n',
    ensures
        lines_of(text) == seq![text],
{
    lemma_first_position_is(text, '\n', text.len() as int);
}

/// No line holds a line feed.
pub proof fn lemma_lines_hold_no_newline(text: Seq<char>, i: int)
    requires
        0 <= i < lines_of(text).len(),
    ensures
        forall|j: int| 0 <= j < lines_of(text)[i].len() ==> lines_of(text)[i][j] != '\n',
    decreases text.len(),
{
    lemma_first_position(text, '\n');
    let k = first_newline(text) as int;
    if k < text.len() {
        let rest = text.skip(k + 1);
        if i > 0 {
            lemma_lines_hold_no_newline(rest, i - 1);
            assert(lines_of(text)[i] == lines_of(rest)[i - 1]);
        }
    }
}

/// Every line is a stretch of the text.
pub proof fn lemma_line_is_part(text: Seq<char>, i: int) -> (span: (int, int))
    requires
        0 <= i < lines_of(text).len(),
    ensures
        0 <= span.0 <= span.1 <= text.len(),
        lines_of(text)[i] == text.subrange(span.0, span.1),
    decreases text.len(),
{
    lemma_first_position(text, '\n');
    let k = first_newline(text) as int;
    if k < text.len() {
        if i == 0 {
            let line = text.take(k);
            if line.len() > 0 && line.last() == '\r' {
                (0, k - 1)
            } else {
                (0, k)
            }
        } else {
            let rest = text.skip(k + 1);
            let inner = lemma_line_is_part(rest, i - 1);
            assert(rest.subrange(inner.0, inner.1) =~= text.subrange(
                k + 1 + inner.0,
                k + 1 + inner.1,
            ));
            (k + 1 + inner.0, k + 1 + inner.1)
        }
    } else {
        (0, text.len() as int)
    }
}

/// A line feed at the end of a text adds no line: the text has the same
/// lines with it and without it. This holds of a text that is not empty and
/// ends neither in a line feed nor in a carriage return.
pub proof fn lemma_final_newline_adds_no_line(text: Seq<char>)
    requires
        text.len() > 0,
        text.last() != '\n',
        text.last() != '\r',
    ensures
        lines_of(text.push('\n')) == lines_of(text),
    decreases text.len(),
{
    let longer = text.push('\n');
    let k = first_position(text, '\n') as int;
    lemma_first_position(text, '\n');
    lemma_first_position_is(longer, '\n', k);
    assert(longer.take(k) =~= text.take(k));
    if k < text.len() {
        let rest = text.skip(k + 1);
        assert(longer.skip(k + 1) =~= rest.push('\n'));
        lemma_final_newline_adds_no_line(rest);
    } else {
        assert(text.take(k) =~= text);
        assert(longer.skip(k + 1) =~= Seq::<char>::empty());
        assert(lines_of(Seq::<char>::empty()) =~= Seq::<Seq<char>>::empty());
    }
}

/// The texts of `items` with one more string are those of `items` with one
/// more text.
proof fn lemma_texts_push(items: Seq<&str>, last: &str)
    ensures
        texts(items.push(last)) == texts(items).push(last@),
{
}

/// The lines of `text`, each a slice of it, in order.
pub fn lines<'a>(text: &'a str) -> (out: Vec<&'a str>)
    ensures
        texts(out@) == lines_of(text@),
{
    let chars = chars_of(text);
    let n = chars.len();
    let total = text.as_bytes().len();
    let mut out: Vec<&'a str> = Vec::new();
    let mut rest: &'a str = text;
    let mut start: usize = 0;
    while start < n
        invariant
            start <= n,
            n == chars.len(),
            chars@ == text@,
            total == encode_utf8(text@).len(),
            rest@ == text@.skip(start as int),
            lines_of(text@) == texts(out@) + lines_of(rest@),
        decreases n - start,
    {
        let (end, width) = find_from(&chars, start, '\n', total);
        let ghost k = end - start;
        proof {
            assert(rest@.take(k) =~= chars@.subrange(start as int, end as int));
        }
        if end == n {
            proof {
                lemma_texts_push(out@, rest);
            }
            out.push(rest);
            return out;
        }
        let (line, tail) = split_at_char(rest, Ghost(k), width);
        proof {
            lemma_first_position(rest@, '\n');
            assert(tail@.take(1) =~= seq!['\n']);
            lemma_encode_one('\n');
        }
        let (_, after) = split_at_char(tail, Ghost(1), 1);
        let mut kept: &'a str = line;
        if end > start && chars[end - 1] == '\r' {
            proof {
                let body = line@.take(k - 1);
                assert(line@ =~= body + seq!['\r']);
                lemma_encode_concat(body, seq!['\r']);
                lemma_encode_one('\r');
            }
            let (body, _) = split_at_char(line, Ghost(k - 1), width - 1);
            kept = body;
        }
        proof {
            assert(after@ =~= rest@.skip(k + 1));
            lemma_texts_push(out@, kept);
            assert(texts(out@) + (seq![kept@] + lines_of(after@)) =~= texts(out@).push(kept@)
                + lines_of(after@));
        }
        out.push(kept);
        rest = after;
        start = end + 1;
    }
    out
}

} // verus!
