//! The `Link` response header: finding the address of the next page.
//!
//! The header is a comma-separated list of entries of the form
//! `<url>; rel="name"`. The next page is named by the first entry that
//! holds the marker `rel="next"`; its address stands between the first
//! `<` of the entry and the first `>` after it.

use vstd::prelude::*;
use crate::web_address::{normalize_url, parsed_url};

verus! {

/// The marker of the entry that names the next page: `rel="next"`.
pub open spec fn next_marker() -> Seq<char> {
    seq!['r', 'e', 'l', '=', '"', 'n', 'e', 'x', 't', '"']
}

/// Position of the first `c` in `text` at or after `from`, or the length
/// of `text` where there is none.
pub open spec fn first_at_or_after(text: Seq<char>, c: char, from: int) -> int
    decreases text.len() - from,
{
    if from < 0 || from >= text.len() {
        text.len() as int
    } else if text[from] == c {
        from
    } else {
        first_at_or_after(text, c, from + 1)
    }
}

/// `pattern` stands in `text` at position `at`.
pub open spec fn occurs_at(text: Seq<char>, pattern: Seq<char>, at: int) -> bool {
    0 <= at && at + pattern.len() <= text.len() && text.subrange(at, at + pattern.len())
        == pattern
}

/// The entry holds the marker `rel="next"` somewhere in its text.
pub open spec fn has_next_relation(entry: Seq<char>) -> bool {
    exists|at: int| occurs_at(entry, next_marker(), at)
}

/// The entries of `header` that begin at or after `start`, where `start`
/// is the beginning of an entry: the header cut at each comma.
pub open spec fn split_entries_from(header: Seq<char>, start: int) -> Seq<Seq<char>>
    decreases header.len() - start,
{
    let cut = first_at_or_after(header, ',', start);
    if 0 <= start <= cut < header.len() {
        seq![header.subrange(start, cut)] + split_entries_from(header, cut + 1)
    } else if 0 <= start <= header.len() {
        seq![header.subrange(start, header.len() as int)]
    } else {
        Seq::empty()
    }
}

/// The entries of `header`: the texts between its commas, in order. A
/// header without a comma is one entry, the empty header too.
pub open spec fn split_entries(header: Seq<char>) -> Seq<Seq<char>> {
    split_entries_from(header, 0)
}

/// The first of `entries` that holds the marker `rel="next"`.
pub open spec fn first_next_entry(entries: Seq<Seq<char>>) -> Option<Seq<char>>
    decreases entries.len(),
{
    if entries.len() == 0 {
        None
    } else if has_next_relation(entries[0]) {
        Some(entries[0])
    } else {
        first_next_entry(entries.drop_first())
    }
}

/// The text between the first `<` of `entry` and the first `>` after it.
pub open spec fn bracketed_text(entry: Seq<char>) -> Option<Seq<char>> {
    let open = first_at_or_after(entry, '<', 0);
    let close = first_at_or_after(entry, '>', open + 1);
    if open < entry.len() && close < entry.len() {
        Some(entry.subrange(open + 1, close))
    } else {
        None
    }
}

/// The bracketed text of the first entry of `header` that holds the
/// marker `rel="next"`.
pub open spec fn next_link_text(header: Seq<char>) -> Option<Seq<char>> {
    match first_next_entry(split_entries(header)) {
        Some(entry) => bracketed_text(entry),
        None => None,
    }
}

/// The address of the next page that `header` names: its next-link text
/// read as an absolute URL.
pub open spec fn next_link(header: Seq<char>) -> Option<Seq<char>> {
    match next_link_text(header) {
        Some(text) => parsed_url(text),
        None => None,
    }
}

/// `answer` is the next link of `header`: the address that the header
/// names, or nothing where it names none.
pub open spec fn answers_next_link(header: Seq<char>, answer: Option<String>) -> bool {
    match answer {
        Some(address) => next_link(header) == Some(address@),
        None => next_link(header) is None,
    }
}

/// The characters of `text`, in order.
pub fn collect_chars(text: &str) -> (chars: Vec<char>)
    ensures
        chars@ == text@,
{
    let mut chars: Vec<char> = Vec::new();
    for c in it: text.chars()
        invariant
            chars@ == it.seq().take(it.index() as int),
            it.seq() == text@,
    {
        chars.push(c);
    }
    chars
}

/// The first `c` at or after `from` is at `at` when no `c` stands between
/// the two and `at` holds one or is the end of `text`.
pub proof fn lemma_first_at_or_after(text: Seq<char>, c: char, from: int, at: int)
    requires
        0 <= from <= at <= text.len(),
        forall|j: int| from <= j < at ==> text[j] != c,
        at < text.len() ==> text[at] == c,
    ensures
        first_at_or_after(text, c, from) == at,
    decreases at - from,
{
    if from < at {
        lemma_first_at_or_after(text, c, from + 1, at);
    }
}

/// Where none of the first `k` entries holds the marker, the choice is
/// made among the entries from `k` on.
pub proof fn lemma_first_next_entry_skips(entries: Seq<Seq<char>>, k: int)
    requires
        0 <= k <= entries.len(),
        forall|j: int| 0 <= j < k ==> !has_next_relation(#[trigger] entries[j]),
    ensures
        first_next_entry(entries) == first_next_entry(entries.skip(k)),
    decreases k,
{
    if k == 0 {
        assert(entries.skip(0) == entries);
    } else {
        let rest = entries.drop_first();
        assert forall|j: int| 0 <= j < k - 1 implies !has_next_relation(#[trigger] rest[j]) by {
            assert(rest[j] == entries[j + 1]);
        }
        lemma_first_next_entry_skips(rest, k - 1);
        assert(rest.skip(k - 1) == entries.skip(k));
    }
}

/// The empty header names no next page.
pub proof fn lemma_empty_header_has_no_next_link(header: Seq<char>)
    requires
        header.len() == 0,
    ensures
        next_link_text(header) is None,
        next_link(header) is None,
{
    let entries = split_entries(header);
    assert(entries.len() == 1);
    assert(!has_next_relation(entries[0]));
    assert(first_next_entry(entries.drop_first()) is None);
}

/// A header none of whose entries holds `rel="next"` names no next page,
/// however many other relations it lists.
pub proof fn lemma_no_next_relation_has_no_next_link(header: Seq<char>)
    requires
        forall|k: int|
            0 <= k < split_entries(header).len() ==> !has_next_relation(
                #[trigger] split_entries(header)[k],
            ),
    ensures
        next_link_text(header) is None,
        next_link(header) is None,
{
    let entries = split_entries(header);
    lemma_first_next_entry_skips(entries, entries.len() as int);
}

/// Among several entries the first that holds `rel="next"` decides: the
/// next link is read from it, whatever the later entries hold.
pub proof fn lemma_first_next_relation_decides(header: Seq<char>, k: int)
    requires
        0 <= k < split_entries(header).len(),
        has_next_relation(split_entries(header)[k]),
        forall|j: int| 0 <= j < k ==> !has_next_relation(#[trigger] split_entries(header)[j]),
    ensures
        first_next_entry(split_entries(header)) == Some(split_entries(header)[k]),
        next_link_text(header) == bracketed_text(split_entries(header)[k]),
        next_link(header) == match bracketed_text(split_entries(header)[k]) {
            Some(text) => parsed_url(text),
            None => None,
        },
{
    let entries = split_entries(header);
    lemma_first_next_entry_skips(entries, k);
    assert(entries.skip(k)[0] == entries[k]);
}

/// The next link is a function of the header: two answers that both meet
/// the contract of [`get_next_link`] for one header name the same
/// address, or both name none.
pub proof fn lemma_next_link_is_repeatable(
    header: Seq<char>,
    first: Option<String>,
    second: Option<String>,
)
    requires
        answers_next_link(header, first),
        answers_next_link(header, second),
    ensures
        first is Some <==> second is Some,
        first is Some ==> first->Some_0@ == second->Some_0@,
{
}

/// What stands before the first `c` at or after `from` holds no `c`, and
/// the position found holds one unless it is the end of `text`.
pub proof fn lemma_first_at_or_after_is_first(text: Seq<char>, c: char, from: int)
    requires
        0 <= from <= text.len(),
    ensures
        from <= first_at_or_after(text, c, from) <= text.len(),
        first_at_or_after(text, c, from) < text.len() ==> text[first_at_or_after(text, c, from)]
            == c,
        forall|j: int| from <= j < first_at_or_after(text, c, from) ==> text[j] != c,
    decreases text.len() - from,
{
    if from < text.len() && text[from] != c {
        lemma_first_at_or_after_is_first(text, c, from + 1);
    }
}

/// The entries put together again, with a comma between neighbours.
pub open spec fn join_entries(entries: Seq<Seq<char>>) -> Seq<char>
    decreases entries.len(),
{
    if entries.len() == 0 {
        Seq::empty()
    } else if entries.len() == 1 {
        entries[0]
    } else {
        entries[0] + seq![','] + join_entries(entries.drop_first())
    }
}

/// The entry holds no comma.
pub open spec fn holds_no_comma(entry: Seq<char>) -> bool {
    forall|i: int| 0 <= i < entry.len() ==> entry[i] != ','
}

/// Cutting at the commas loses nothing but the commas: from any
/// beginning of an entry on there is at least one entry, no entry holds
/// a comma, and the entries joined with commas give the rest of the
/// header back.
pub proof fn lemma_split_entries_from(header: Seq<char>, start: int)
    requires
        0 <= start <= header.len(),
    ensures
        split_entries_from(header, start).len() >= 1,
        forall|k: int|
            0 <= k < split_entries_from(header, start).len() ==> holds_no_comma(
                #[trigger] split_entries_from(header, start)[k],
            ),
        join_entries(split_entries_from(header, start)) == header.skip(start),
    decreases header.len() - start,
{
    let cut = first_at_or_after(header, ',', start);
    lemma_first_at_or_after_is_first(header, ',', start);
    let entries = split_entries_from(header, start);
    let entry = header.subrange(start, cut);
    assert(holds_no_comma(entry)) by {
        assert forall|i: int| 0 <= i < entry.len() implies entry[i] != ',' by {
            assert(entry[i] == header[start + i]);
        }
    }
    if cut < header.len() {
        let rest = split_entries_from(header, cut + 1);
        lemma_split_entries_from(header, cut + 1);
        assert(entries == seq![entry] + rest);
        assert(entries.drop_first() == rest);
        assert forall|k: int| 0 <= k < entries.len() implies holds_no_comma(
            #[trigger] entries[k],
        ) by {
            if k > 0 {
                assert(entries[k] == rest[k - 1]);
            }
        }
        assert(entry + seq![','] + header.skip(cut + 1) =~= header.skip(start));
    } else {
        assert(entries == seq![entry]);
        assert(entry =~= header.skip(start));
    }
}

/// The entries of a header are what stands between its commas: there is
/// at least one, none holds a comma, and joined with commas they give the
/// header back.
pub proof fn lemma_split_entries(header: Seq<char>)
    ensures
        split_entries(header).len() >= 1,
        forall|k: int|
            0 <= k < split_entries(header).len() ==> holds_no_comma(
                #[trigger] split_entries(header)[k],
            ),
        join_entries(split_entries(header)) == header,
{
    lemma_split_entries_from(header, 0);
    assert(header.skip(0) == header);
}

/// Finds the first `c` in `text[from..to]`; gives `to` where there is none.
fn find_char(text: &Vec<char>, c: char, from: usize, to: usize) -> (at: usize)
    requires
        from <= to <= text.len(),
    ensures
        from <= at <= to,
        at < to ==> text[at as int] == c,
        forall|j: int| from <= j < at ==> text[j] != c,
{
    let mut at: usize = from;
    while at < to && text[at] != c
        invariant
            from <= at <= to <= text.len(),
            forall|j: int| from <= j < at ==> text[j] != c,
        decreases to - at,
    {
        at = at + 1;
    }
    at
}

/// Tells whether `pattern` stands in `text` at position `at`.
fn matches_at(text: &Vec<char>, pattern: &Vec<char>, at: usize) -> (yes: bool)
    requires
        at + pattern.len() <= text.len(),
    ensures
        yes == occurs_at(text@, pattern@, at as int),
{
    let mut j: usize = 0;
    while j < pattern.len()
        invariant
            j <= pattern.len(),
            at + pattern.len() <= text.len(),
            forall|k: int| 0 <= k < j ==> text[at + k] == pattern[k],
        decreases pattern.len() - j,
    {
        if text[at + j] != pattern[j] {
            proof {
                assert(text@.subrange(at as int, at + pattern.len())[j as int] == text[at + j]);
            }
            return false;
        }
        j = j + 1;
    }
    proof {
        assert(text@.subrange(at as int, at + pattern.len()) =~= pattern@);
    }
    true
}

/// Tells whether the entry `text[from..to]` holds the marker.
fn holds_marker(text: &Vec<char>, marker: &Vec<char>, from: usize, to: usize) -> (found: bool)
    requires
        from <= to <= text.len(),
        marker@ == next_marker(),
    ensures
        found == has_next_relation(text@.subrange(from as int, to as int)),
{
    let ghost entry = text@.subrange(from as int, to as int);
    let width: usize = marker.len();
    if to - from < width {
        return false;
    }
    let last: usize = to - width;
    let mut at: usize = from;
    while at <= last
        invariant
            from <= at <= last + 1,
            last + width == to <= text.len(),
            width == marker.len(),
            marker@ == next_marker(),
            entry == text@.subrange(from as int, to as int),
            forall|k: int| 0 <= k < at - from ==> !occurs_at(entry, next_marker(), k),
        decreases last + 1 - at,
    {
        let here: bool = matches_at(text, marker, at);
        proof {
            assert(entry.subrange(at - from, at - from + width) =~= text@.subrange(
                at as int,
                at + width,
            ));
        }
        if here {
            assert(occurs_at(entry, next_marker(), at - from));
            return true;
        }
        at = at + 1;
    }
    false
}

/// Finds the text of the next link in `links`: the text between the first
/// `<` and the first `>` after it, in the first comma-separated entry
/// that holds `rel="next"`. Gives `None` where no entry holds the marker
/// or that entry lacks the pair of brackets.
pub fn get_next_link_text(links: &str) -> (text: Option<&str>)
    ensures
        text matches Some(t) ==> next_link_text(links@) == Some(t@),
        text is None ==> next_link_text(links@) is None,
        links@.len() == 0 ==> text is None,
{
    proof {
        if links@.len() == 0 {
            lemma_empty_header_has_no_next_link(links@);
        }
    }
    let chars: Vec<char> = collect_chars(links);
    let marker: Vec<char> = collect_chars("rel=\"next\"");
    proof {
        reveal_strlit("rel=\"next\"");
        assert(marker@ =~= next_marker());
    }
    let end: usize = chars.len();
    let mut start: usize = 0;
    loop
        invariant
            start <= end == chars.len(),
            chars@ == links@,
            marker@ == next_marker(),
            first_next_entry(split_entries(links@)) == first_next_entry(
                split_entries_from(links@, start as int),
            ),
        decreases end - start,
    {
        let cut: usize = find_char(&chars, ',', start, end);
        let ghost entry = chars@.subrange(start as int, cut as int);
        let ghost entries = split_entries_from(links@, start as int);
        proof {
            lemma_first_at_or_after(chars@, ',', start as int, cut as int);
            assert(entries[0] == entry);
        }
        if holds_marker(&chars, &marker, start, cut) {
            let open: usize = find_char(&chars, '<', start, cut);
            proof {
                assert forall|j: int| 0 <= j < open - start implies entry[j] != '<' by {
                    assert(entry[j] == chars[start + j]);
                }
                lemma_first_at_or_after(entry, '<', 0, open - start);
            }
            if open == cut {
                return None;
            }
            let close: usize = find_char(&chars, '>', open + 1, cut);
            proof {
                assert forall|j: int| open + 1 - start <= j < close - start implies entry[j]
                    != '>' by {
                    assert(entry[j] == chars[start + j]);
                }
                lemma_first_at_or_after(entry, '>', open + 1 - start, close - start);
            }
            if close == cut {
                return None;
            }
            proof {
                assert(entry.subrange(open + 1 - start, close - start) =~= links@.subrange(
                    open + 1,
                    close as int,
                ));
            }
            return Some(links.substring_char(open + 1, close));
        }
        if cut == end {
            proof {
                assert(entries =~= seq![entry]);
                assert(first_next_entry(entries.drop_first()) is None);
            }
            return None;
        }
        proof {
            assert(entries.drop_first() =~= split_entries_from(links@, cut + 1));
        }
        start = cut + 1;
    }
}

/// Extracts the address of the next page from the value of a `Link`
/// header: the text that [`get_next_link_text`] finds, read as an absolute
/// URL. A header that names no next page, or names one that is no URL,
/// gives `None`; the empty header and an empty pair `<>` are among these.
pub fn get_next_link(links: &str) -> (next: Option<String>)
    ensures
        answers_next_link(links@, next),
        links@.len() == 0 ==> next is None,
        next_link_text(links@) is None ==> next is None,
        next_link_text(links@) == Some(Seq::<char>::empty()) ==> next is None,
{
    match get_next_link_text(links) {
        Some(text) => normalize_url(text),
        None => None,
    }
}

} // verus!
