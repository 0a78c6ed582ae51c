use vstd::prelude::*;

use crate::config::Config;
use crate::lines::{chars_of, lines_of, split_lines, texts};

verus! {

/// `needle` stands in `hay` starting at position `i`.
pub open spec fn occurs_at(hay: Seq<char>, needle: Seq<char>, i: int) -> bool {
    0 <= i && i + needle.len() <= hay.len() && hay.subrange(i, i + needle.len()) == needle
}

/// `needle` is a substring of `hay`. The empty needle is a substring of every text.
pub open spec fn has_substring(hay: Seq<char>, needle: Seq<char>) -> bool {
    exists|i: int| #[trigger] occurs_at(hay, needle, i)
}

/// The lines among `lines` that hold `query`, in their order.
pub open spec fn keep_containing(lines: Seq<Seq<char>>, query: Seq<char>) -> Seq<Seq<char>> {
    lines.filter(|l: Seq<char>| has_substring(l, query))
}

/// The lines of `content` that hold `query`, compared character for character.
pub open spec fn matching_lines(query: Seq<char>, content: Seq<char>) -> Seq<Seq<char>> {
    keep_containing(lines_of(content), query)
}

/// What `str::to_lowercase` makes of a text.
pub uninterp spec fn lower_of(s: Seq<char>) -> Seq<char>;

/// The lines among `lines` whose lower-case form holds the lower-case form of
/// `query`, in their order.
pub open spec fn keep_containing_folded(lines: Seq<Seq<char>>, query: Seq<char>) -> Seq<
    Seq<char>,
> {
    lines.filter(|l: Seq<char>| has_substring(lower_of(l), lower_of(query)))
}

/// The lines of `content` that hold `query` when both are taken in lower case.
pub open spec fn matching_lines_folded(query: Seq<char>, content: Seq<char>) -> Seq<Seq<char>> {
    keep_containing_folded(lines_of(content), query)
}

/// Relies on `str::to_lowercase`: the full Unicode lower-case mapping, which
/// depends on the characters alone.
#[verifier::external_body]
fn lowercase(s: &str) -> (r: String)
    ensures
        r@ == lower_of(s@),
{
    s.to_lowercase()
}

/// Whether `needle` stands in `hay` starting at `i`.
fn occurs_at_exec(hay: &Vec<char>, needle: &Vec<char>, i: usize) -> (r: bool)
    requires
        i + needle.len() <= hay.len(),
    ensures
        r == occurs_at(hay@, needle@, i as int),
{
    let m = needle.len();
    let mut j: usize = 0;
    while j < m
        invariant
            i + m <= hay.len(),
            m == needle.len(),
            j <= m,
            forall|k: int| 0 <= k < j ==> hay@[i + k] == needle@[k],
        decreases m - j,
    {
        if hay[i + j] != needle[j] {
            assert(hay@.subrange(i as int, i + m)[j as int] != needle@[j as int]);
            return false;
        }
        j += 1;
    }
    assert(hay@.subrange(i as int, i + m) =~= needle@);
    true
}

/// Whether `needle` is a substring of `hay`.
fn has_substring_exec(hay: &Vec<char>, needle: &Vec<char>) -> (r: bool)
    ensures
        r == has_substring(hay@, needle@),
{
    if needle.len() > hay.len() {
        assert(forall|k: int| !occurs_at(hay@, needle@, k));
        return false;
    }
    let last = hay.len() - needle.len();
    let mut i: usize = 0;
    loop
        invariant
            last == hay.len() - needle.len(),
            i <= last,
            forall|k: int| 0 <= k < i ==> !occurs_at(hay@, needle@, k),
        decreases last - i,
    {
        if occurs_at_exec(hay, needle, i) {
            return true;
        }
        if i == last {
            assert forall|k: int| !occurs_at(hay@, needle@, k) by {
                if 0 <= k < i {
                }
            }
            return false;
        }
        i += 1;
    }
}

/// Whether `query` is a substring of `line`, compared character for character.
/// The empty query is found in every line.
pub fn contains(line: &str, query: &str) -> (r: bool)
    ensures
        r == has_substring(line@, query@),
{
    has_substring_exec(&chars_of(line), &chars_of(query))
}

/// The lines of `content` that hold `query`, in their order in `content`,
/// compared character for character.
pub fn search_case_sensitive<'a>(query: &str, content: &'a str) -> (r: Vec<&'a str>)
    ensures
        texts(r@) == matching_lines(query@, content@),
{
    let lines = split_lines(content);
    let q = chars_of(query);
    let mut r: Vec<&'a str> = Vec::new();
    for i in 0..lines.len()
        invariant
            q@ == query@,
            texts(lines@) == lines_of(content@),
            texts(r@) == keep_containing(texts(lines@).take(i as int), query@),
    {
        let line = lines[i];
        let ghost seen = texts(lines@).take(i + 1);
        assert(seen.drop_last() =~= texts(lines@).take(i as int));
        assert(seen.last() == line@);
        proof {
            reveal(Seq::filter);
        }
        let ghost before = texts(r@);
        if has_substring_exec(&chars_of(line), &q) {
            r.push(line);
            assert(texts(r@) =~= before.push(line@));
        } else {
            assert(texts(r@) =~= before);
        }
    }
    assert(texts(lines@).take(lines.len() as int) =~= texts(lines@));
    r
}

/// The lines of `content` that hold `query` when both are taken in lower case,
/// in their order in `content` and as they stand there.
pub fn search_case_insensitive<'a>(query: &str, content: &'a str) -> (r: Vec<&'a str>)
    ensures
        texts(r@) == matching_lines_folded(query@, content@),
{
    let lines = split_lines(content);
    let q = chars_of(lowercase(query).as_str());
    let mut r: Vec<&'a str> = Vec::new();
    for i in 0..lines.len()
        invariant
            q@ == lower_of(query@),
            texts(lines@) == lines_of(content@),
            texts(r@) == keep_containing_folded(texts(lines@).take(i as int), query@),
    {
        let line = lines[i];
        let ghost seen = texts(lines@).take(i + 1);
        assert(seen.drop_last() =~= texts(lines@).take(i as int));
        assert(seen.last() == line@);
        proof {
            reveal(Seq::filter);
        }
        let ghost before = texts(r@);
        if has_substring_exec(&chars_of(lowercase(line).as_str()), &q) {
            r.push(line);
            assert(texts(r@) =~= before.push(line@));
        } else {
            assert(texts(r@) =~= before);
        }
    }
    assert(texts(lines@).take(lines.len() as int) =~= texts(lines@));
    r
}

} // verus!

verus! {

/// The lines of `content` that a search for `query` gives, compared character
/// for character or in lower case.
pub open spec fn selected_lines(query: Seq<char>, content: Seq<char>, case_sensitive: bool) -> Seq<
    Seq<char>,
> {
    if case_sensitive {
        matching_lines(query, content)
    } else {
        matching_lines_folded(query, content)
    }
}

/// The lines of `content` that the search that `config` describes gives, in
/// their order in `content`.
pub fn search<'a>(config: &Config, content: &'a str) -> (r: Vec<&'a str>)
    ensures
        texts(r@) == selected_lines(config.query@, content@, config.case_sensitive),
{
    if config.case_sensitive {
        search_case_sensitive(config.query.as_str(), content)
    } else {
        search_case_insensitive(config.query.as_str(), content)
    }
}

/// A search depends on its query, its content and its mode alone: two
/// searches of unchanged content for the same query give the same lines.
pub proof fn lemma_search_repeatable(
    query: Seq<char>,
    content: Seq<char>,
    case_sensitive: bool,
    first: Seq<Seq<char>>,
    second: Seq<Seq<char>>,
)
    requires
        first == selected_lines(query, content, case_sensitive),
        second == selected_lines(query, content, case_sensitive),
    ensures
        first == second,
{
}

/// The empty query is found in every line.
pub proof fn lemma_empty_query_found(line: Seq<char>)
    ensures
        has_substring(line, Seq::empty()),
{
    assert(line.subrange(0, 0) =~= Seq::<char>::empty());
    assert(occurs_at(line, Seq::empty(), 0));
}

/// Keeping the lines that hold the empty query keeps them all.
pub proof fn lemma_keep_containing_empty(lines: Seq<Seq<char>>)
    ensures
        keep_containing(lines, Seq::empty()) == lines,
    decreases lines.len(),
{
    reveal(Seq::filter);
    if lines.len() > 0 {
        lemma_keep_containing_empty(lines.drop_last());
        lemma_empty_query_found(lines.last());
        assert(lines.drop_last().push(lines.last()) =~= lines);
    }
}

/// A case-sensitive search for the empty query gives every line of the
/// content, unchanged and in order.
pub proof fn lemma_empty_query_selects_every_line(content: Seq<char>)
    ensures
        matching_lines(Seq::empty(), content) == lines_of(content),
{
    lemma_keep_containing_empty(lines_of(content));
}

} // verus!
