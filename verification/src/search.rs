//! Case-insensitive search of titles.

use vstd::prelude::*;
use crate::i18n::{translation, Language, Text};
use crate::text::{
    ascii_lower, ascii_upper, contains, contains_seq, from_chars, is_ascii, lowercase, occurs_at,
    to_chars, trim, trim_chars, trim_end, trim_start, unicode_lowercase, unicode_white_space,
};

verus! {

/// `text` matches `query` when the lower-cased text contains the lower-cased
/// query without its surrounding white space.
pub open spec fn search_matches(text: Seq<char>, query: Seq<char>) -> bool {
    contains_seq(unicode_lowercase(text), unicode_lowercase(trim(query)))
}

/// Search on ASCII text: the text with its capitals made small contains the
/// trimmed query with its capitals made small.
pub open spec fn ascii_search(text: Seq<char>, query: Seq<char>) -> bool {
    contains_seq(ascii_lower(text), ascii_lower(trim(query)))
}

/// Whether `text` matches the search `query`.
/// A query made only of white space (the empty query included) matches
/// every text; on ASCII text and query, case is ignored as `ascii_search`
/// states.
pub fn matches_search(text: &str, query: &str) -> (b: bool)
    ensures
        b == search_matches(text@, query@),
        (forall|i: int| 0 <= i < query@.len() ==> #[trigger] unicode_white_space(query@[i])) ==> b,
        is_ascii(text@) && is_ascii(query@) ==> b == ascii_search(text@, query@),
{
    let q = trim_chars(to_chars(query).as_slice());
    proof {
        if is_ascii(query@) {
            lemma_trim_keeps_ascii(query@);
        }
    }
    let q_lower = to_chars(lowercase(from_chars(q.as_slice()).as_str()).as_str());
    let t_lower = to_chars(lowercase(text).as_str());
    proof {
        if forall|i: int| 0 <= i < query@.len() ==> #[trigger] unicode_white_space(query@[i]) {
            lemma_trim_start_all_space(query@);
            assert(q_lower@.len() == 0);
            assert(occurs_at(t_lower@, q_lower@, 0)) by {
                assert(t_lower@.subrange(0, 0) =~= q_lower@);
            }
        }
    }
    contains(t_lower.as_slice(), q_lower.as_slice())
}

proof fn lemma_trim_start_all_space(s: Seq<char>)
    requires
        forall|i: int| 0 <= i < s.len() ==> #[trigger] unicode_white_space(s[i]),
    ensures
        crate::text::trim_start(s).len() == 0,
    decreases s.len(),
{
    if s.len() > 0 {
        lemma_trim_start_all_space(s.drop_first());
    }
}


/// The positions, in increasing order, of the titles that match `query`
/// (the conversations and projects that a search leaves in the lists).
pub fn search_filter(titles: &[String], query: &str) -> (r: Vec<usize>)
    ensures
        forall|a: int, b: int| 0 <= a < b < r@.len() ==> r@[a] < r@[b],
        forall|j: int|
            0 <= j < r@.len() ==> r@[j] < titles@.len() && search_matches(
                titles@[r@[j] as int]@,
                query@,
            ),
        forall|k: int|
            0 <= k < titles@.len() && search_matches(titles@[k]@, query@) ==> r@.contains(
                k as usize,
            ),
        (forall|i: int| 0 <= i < query@.len() ==> #[trigger] unicode_white_space(query@[i]))
            ==> r@.len() == titles@.len(),
{
    let mut r: Vec<usize> = Vec::new();
    let mut i: usize = 0;
    while i < titles.len()
        invariant
            i <= titles@.len(),
            forall|a: int, b: int| 0 <= a < b < r@.len() ==> r@[a] < r@[b],
            forall|j: int|
                0 <= j < r@.len() ==> r@[j] < i && search_matches(titles@[r@[j] as int]@, query@),
            forall|k: int|
                0 <= k < i && search_matches(titles@[k]@, query@) ==> r@.contains(k as usize),
            (forall|c: int| 0 <= c < query@.len() ==> #[trigger] unicode_white_space(query@[c]))
                ==> r@.len() == i,
        decreases titles.len() - i,
    {
        if matches_search(titles[i].as_str(), query) {
            let ghost before = r@;
            r.push(i);
            assert forall|k: int|
                0 <= k < i + 1 && search_matches(titles@[k]@, query@) implies r@.contains(
                k as usize,
            ) by {
                if k < i {
                    let w = choose|w: int| 0 <= w < before.len() && before[w] == k as usize;
                    assert(r@[w] == k as usize);
                } else {
                    assert(r@[r@.len() - 1] == i);
                }
            }
        }
        i = i + 1;
    }
    r
}


proof fn lemma_trim_start_keeps_ascii(s: Seq<char>)
    requires
        is_ascii(s),
    ensures
        is_ascii(trim_start(s)),
    decreases s.len(),
{
    if s.len() > 0 && unicode_white_space(s[0]) {
        assert forall|i: int| 0 <= i < s.drop_first().len() implies (#[trigger] s.drop_first()[i]
            as u32) < 0x80 by {
            assert(s.drop_first()[i] == s[i + 1]);
        }
        lemma_trim_start_keeps_ascii(s.drop_first());
    }
}

proof fn lemma_trim_end_keeps_ascii(s: Seq<char>)
    requires
        is_ascii(s),
    ensures
        is_ascii(trim_end(s)),
    decreases s.len(),
{
    if s.len() > 0 && unicode_white_space(s.last()) {
        assert forall|i: int| 0 <= i < s.drop_last().len() implies (#[trigger] s.drop_last()[i]
            as u32) < 0x80 by {
            assert(s.drop_last()[i] == s[i]);
        }
        lemma_trim_end_keeps_ascii(s.drop_last());
    }
}

proof fn lemma_trim_keeps_ascii(s: Seq<char>)
    requires
        is_ascii(s),
    ensures
        is_ascii(trim(s)),
{
    lemma_trim_start_keeps_ascii(s);
    lemma_trim_end_keeps_ascii(trim_start(s));
}


proof fn lemma_trim_start_settled(s: Seq<char>)
    ensures
        trim_start(s).len() == 0 || !unicode_white_space(trim_start(s)[0]),
    decreases s.len(),
{
    if s.len() > 0 && unicode_white_space(s[0]) {
        lemma_trim_start_settled(s.drop_first());
    }
}

proof fn lemma_trim_end_settled(s: Seq<char>)
    ensures
        trim_end(s).len() <= s.len(),
        trim_end(s) == s.take(trim_end(s).len() as int),
        trim_end(s).len() == 0 || !unicode_white_space(trim_end(s).last()),
    decreases s.len(),
{
    if s.len() > 0 && unicode_white_space(s.last()) {
        lemma_trim_end_settled(s.drop_last());
        assert(s.drop_last().take(trim_end(s).len() as int) =~= s.take(trim_end(s).len() as int));
    } else {
        assert(s.take(s.len() as int) =~= s);
    }
}

/// Trimming twice is trimming once.
proof fn lemma_trim_idempotent(s: Seq<char>)
    ensures
        trim(trim(s)) == trim(s),
{
    let u = trim_start(s);
    let v = trim_end(u);
    lemma_trim_start_settled(s);
    lemma_trim_end_settled(u);
    if v.len() > 0 {
        assert(v[0] == u[0]);
    }
    assert(trim_start(v) == v);
    assert(trim_end(v) == v);
}

/// Search ignores the white space around the query: the query and its
/// trimmed form match the same texts.
pub proof fn lemma_search_ignores_surrounding_blanks(text: Seq<char>, query: Seq<char>)
    ensures
        search_matches(text, trim(query)) == search_matches(text, query),
        ascii_search(text, trim(query)) == ascii_search(text, query),
{
    lemma_trim_idempotent(query);
}

proof fn lemma_upper_keeps_white_space(c: char)
    ensures
        unicode_white_space(if 'a' <= c && c <= 'z' { ((c as u32) - 32) as char } else { c })
            == unicode_white_space(c),
{
}

proof fn lemma_trim_start_upper(s: Seq<char>)
    ensures
        trim_start(ascii_upper(s)) == ascii_upper(trim_start(s)),
    decreases s.len(),
{
    if s.len() > 0 {
        lemma_upper_keeps_white_space(s[0]);
        assert(ascii_upper(s).drop_first() =~= ascii_upper(s.drop_first()));
        lemma_trim_start_upper(s.drop_first());
    }
}

proof fn lemma_trim_end_upper(s: Seq<char>)
    ensures
        trim_end(ascii_upper(s)) == ascii_upper(trim_end(s)),
    decreases s.len(),
{
    if s.len() > 0 {
        lemma_upper_keeps_white_space(s.last());
        assert(ascii_upper(s).drop_last() =~= ascii_upper(s.drop_last()));
        lemma_trim_end_upper(s.drop_last());
    }
}

proof fn lemma_lower_of_upper(s: Seq<char>)
    ensures
        ascii_lower(ascii_upper(s)) == ascii_lower(s),
{
    assert forall|i: int| 0 <= i < s.len() implies ascii_lower(ascii_upper(s))[i] == ascii_lower(s)[i] by {
        let c = s[i];
        if 'a' <= c && c <= 'z' {
            let u = ((c as u32) - 32) as char;
            assert(u as u32 == (c as u32) - 32);
            assert((((u as u32) + 32) as char) == c) by {
                vstd::utf8::char_u32_cast(c, c as u32);
            }
        }
    }
    assert(ascii_lower(ascii_upper(s)) =~= ascii_lower(s));
}

/// On ASCII, search ignores case and blanks: capitals in the text or in the
/// query change nothing, nor does the white space around the query, and a
/// query made of white space only matches every text.
pub proof fn lemma_ascii_search_ignores_case_and_blanks(text: Seq<char>, query: Seq<char>)
    ensures
        ascii_search(ascii_upper(text), query) == ascii_search(text, query),
        ascii_search(text, ascii_upper(query)) == ascii_search(text, query),
        ascii_search(text, trim(query)) == ascii_search(text, query),
        (forall|i: int| 0 <= i < query.len() ==> #[trigger] unicode_white_space(query[i]))
            ==> ascii_search(text, query),
{
    lemma_lower_of_upper(text);
    lemma_trim_start_upper(query);
    lemma_trim_end_upper(trim_start(query));
    lemma_lower_of_upper(trim(query));
    lemma_trim_idempotent(query);
    if forall|i: int| 0 <= i < query.len() ==> #[trigger] unicode_white_space(query[i]) {
        lemma_trim_start_all_space(query);
        let t = ascii_lower(text);
        assert(ascii_lower(trim(query)).len() == 0);
        assert(occurs_at(t, ascii_lower(trim(query)), 0)) by {
            assert(t.subrange(0, 0) =~= ascii_lower(trim(query)));
        }
    }
}


/// A conversation in the sidebar can be archived or deleted when it is not
/// running and the workspace is not busy.
pub fn can_manage_task(running: bool, workspace_busy: bool) -> (b: bool)
    ensures
        b == (!running && !workspace_busy),
{
    !running && !workspace_busy
}

/// The note shown in an empty conversation list: nothing started yet when
/// the search is blank, else nothing matching the search.
pub fn empty_task_list_text(query: &str, locale: Language) -> (s: &'static str)
    ensures
        s@ == translation(
            locale,
            if trim(query@).len() == 0 {
                Text::SidebarNoTasksYet
            } else {
                Text::SidebarNoMatchingTasks
            },
        ),
{
    if trim_chars(to_chars(query).as_slice()).len() == 0 {
        locale.text(Text::SidebarNoTasksYet)
    } else {
        locale.text(Text::SidebarNoMatchingTasks)
    }
}

} // verus!
