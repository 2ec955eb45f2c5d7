//! The line search: which lines of a text hold a query.
//!
//! A line matches where the query is a contiguous part of it. The search
//! that ignores case compares the lower-case forms of line and query, and
//! still returns the line as it stands in the text. Lines come out in the
//! order of the text, each as often as it occurs.

use vstd::prelude::*;
use crate::casefold::{lowercase_of, to_lowercase};
use crate::config::{Config, ConfigModel};
use crate::lines::{lemma_line_is_part, lines, lines_of, texts};
use crate::text::{contains, has_substring, lemma_substring_of_subrange};

verus! {

/// The lines of `text` that hold `query`.
pub open spec fn matching_lines(query: Seq<char>, text: Seq<char>) -> Seq<Seq<char>> {
    lines_of(text).filter(|line: Seq<char>| has_substring(line, query))
}

/// The lines of `text` whose lower-case form holds the lower-case form of
/// `query`.
pub open spec fn matching_lines_ignoring_case(query: Seq<char>, text: Seq<char>) -> Seq<
    Seq<char>,
> {
    lines_of(text).filter(
        |line: Seq<char>| has_substring(lowercase_of(line), lowercase_of(query)),
    )
}

/// Those of `items` whose key holds `needle`; the key of an item is the
/// text at its position in `keys`.
pub open spec fn selected(items: Seq<Seq<char>>, keys: Seq<Seq<char>>, needle: Seq<char>) -> Seq<
    Seq<char>,
>
    recommends
        items.len() == keys.len(),
    decreases items.len(),
{
    if items.len() == 0 || keys.len() == 0 {
        Seq::empty()
    } else {
        let before = selected(items.drop_last(), keys.drop_last(), needle);
        if has_substring(keys.last(), needle) {
            before.push(items.last())
        } else {
            before
        }
    }
}

/// Selecting by keys that a function gives is filtering by that function.
pub proof fn lemma_selected_is_filter(
    items: Seq<Seq<char>>,
    key: spec_fn(Seq<char>) -> Seq<char>,
    needle: Seq<char>,
)
    ensures
        selected(items, items.map_values(key), needle) == items.filter(
            |item: Seq<char>| has_substring(key(item), needle),
        ),
    decreases items.len(),
{
    reveal(Seq::filter);
    if items.len() > 0 {
        lemma_selected_is_filter(items.drop_last(), key, needle);
        assert(items.map_values(key).drop_last() =~= items.drop_last().map_values(key));
    }
}

/// Those of `items` whose key holds `needle`, in their order. The key of an
/// item is the string at its position in `keys`.
pub fn select<'a>(items: &Vec<&'a str>, keys: &Vec<&str>, needle: &str) -> (out: Vec<&'a str>)
    requires
        items.len() == keys.len(),
    ensures
        texts(out@) == selected(texts(items@), texts(keys@), needle@),
{
    let mut out: Vec<&'a str> = Vec::new();
    let mut i: usize = 0;
    while i < items.len()
        invariant
            i <= items.len(),
            items.len() == keys.len(),
            texts(out@) == selected(
                texts(items@).take(i as int),
                texts(keys@).take(i as int),
                needle@,
            ),
        decreases items.len() - i,
    {
        let hit = contains(keys[i], needle);
        proof {
            let longer_items = texts(items@).take(i + 1);
            let longer_keys = texts(keys@).take(i + 1);
            assert(longer_items.drop_last() =~= texts(items@).take(i as int));
            assert(longer_keys.drop_last() =~= texts(keys@).take(i as int));
        }
        if hit {
            out.push(items[i]);
        }
        i += 1;
    }
    assert(texts(items@).take(i as int) =~= texts(items@));
    assert(texts(keys@).take(i as int) =~= texts(keys@));
    out
}

/// The lines of `contents` that hold `query`, each a slice of `contents`.
pub fn search<'a>(query: &str, contents: &'a str) -> (found: Vec<&'a str>)
    ensures
        texts(found@) == matching_lines(query@, contents@),
{
    let all = lines(contents);
    proof {
        let same = |line: Seq<char>| line;
        assert(texts(all@).map_values(same) =~= texts(all@));
        lemma_selected_is_filter(texts(all@), same, query@);
        assert((|item: Seq<char>| has_substring(same(item), query@)) =~= (|line: Seq<char>|
            has_substring(line, query@)));
    }
    select(&all, &all, query)
}

/// The lines of `contents` whose lower-case form holds the lower-case form
/// of `query`, each a slice of `contents` as it stands there.
pub fn search_case_insensitive<'a>(query: &str, contents: &'a str) -> (found: Vec<&'a str>)
    ensures
        texts(found@) == matching_lines_ignoring_case(query@, contents@),
{
    let needle = to_lowercase(query);
    let all = lines(contents);
    let mut lowered: Vec<String> = Vec::new();
    let mut i: usize = 0;
    while i < all.len()
        invariant
            i <= all.len(),
            lowered.len() == i,
            forall|j: int| 0 <= j < i ==> (#[trigger] lowered@[j])@ == lowercase_of(all@[j]@),
        decreases all.len() - i,
    {
        lowered.push(to_lowercase(all[i]));
        i += 1;
    }
    let mut keys: Vec<&str> = Vec::new();
    let mut j: usize = 0;
    while j < lowered.len()
        invariant
            j <= lowered.len(),
            keys.len() == j,
            forall|k: int| 0 <= k < j ==> (#[trigger] keys@[k])@ == lowered@[k]@,
        decreases lowered.len() - j,
    {
        keys.push(lowered[j].as_str());
        j += 1;
    }
    proof {
        let lower = |line: Seq<char>| lowercase_of(line);
        assert(texts(keys@) =~= texts(all@).map_values(lower));
        lemma_selected_is_filter(texts(all@), lower, needle@);
        assert((|item: Seq<char>| has_substring(lower(item), needle@)) =~= (|line: Seq<char>|
            has_substring(lowercase_of(line), lowercase_of(query@))));
    }
    select(&all, &keys, needle.as_str())
}

/// What a search of `text` under `config` finds: the lines that hold the
/// query, with or without regard to case as `config` says.
pub open spec fn run_result(config: ConfigModel, text: Seq<char>) -> Seq<Seq<char>> {
    if config.case_sensitive {
        matching_lines(config.query, text)
    } else {
        matching_lines_ignoring_case(config.query, text)
    }
}

/// Searches `contents`, the text of the file that `cfg` names, as `cfg`
/// says. The matching lines come back in the order of the text; where none
/// matches, the result is empty.
pub fn run<'a>(cfg: &Config, contents: &'a str) -> (found: Vec<&'a str>)
    ensures
        texts(found@) == run_result(cfg@, contents@),
{
    if cfg.case_sensitive {
        search(cfg.query.as_str(), contents)
    } else {
        search_case_insensitive(cfg.query.as_str(), contents)
    }
}

/// A query that occurs nowhere in a text matches none of its lines.
pub proof fn lemma_absent_query_matches_nothing(query: Seq<char>, text: Seq<char>)
    requires
        !has_substring(text, query),
    ensures
        matching_lines(query, text) == Seq::<Seq<char>>::empty(),
{
    let all = lines_of(text);
    let pred = |line: Seq<char>| has_substring(line, query);
    assert forall|i: int| 0 <= i < all.len() implies !pred(#[trigger] all[i]) by {
        let span = lemma_line_is_part(text, i);
        if has_substring(all[i], query) {
            lemma_substring_of_subrange(text, span.0, span.1, query);
        }
    }
    all.lemma_all_neg_filter_empty(pred);
}

/// Where the lower-case form of no line holds the lower-case form of the
/// query, the search that ignores case finds nothing.
pub proof fn lemma_absent_query_matches_nothing_ignoring_case(query: Seq<char>, text: Seq<char>)
    requires
        forall|i: int|
            0 <= i < lines_of(text).len() ==> !has_substring(
                lowercase_of(#[trigger] lines_of(text)[i]),
                lowercase_of(query),
            ),
    ensures
        matching_lines_ignoring_case(query, text) == Seq::<Seq<char>>::empty(),
{
    let all = lines_of(text);
    let pred = |line: Seq<char>| has_substring(lowercase_of(line), lowercase_of(query));
    all.lemma_all_neg_filter_empty(pred);
}

/// Every line that a search finds is a line of the text and holds the
/// query.
pub proof fn lemma_found_lines_hold_query(query: Seq<char>, text: Seq<char>, i: int)
    requires
        0 <= i < matching_lines(query, text).len(),
    ensures
        lines_of(text).contains(matching_lines(query, text)[i]),
        has_substring(matching_lines(query, text)[i], query),
{
    let all = lines_of(text);
    let pred = |line: Seq<char>| has_substring(line, query);
    all.lemma_filter_pred(pred, i);
    all.lemma_filter_contains_rev(pred, all.filter(pred)[i]);
}

/// Every line of the text that holds the query is among the lines found.
pub proof fn lemma_matching_line_is_found(query: Seq<char>, text: Seq<char>, i: int)
    requires
        0 <= i < lines_of(text).len(),
        has_substring(lines_of(text)[i], query),
    ensures
        matching_lines(query, text).contains(lines_of(text)[i]),
{
    let all = lines_of(text);
    let pred = |line: Seq<char>| has_substring(line, query);
    all.lemma_filter_contains(pred, i);
}

} // verus!
