//! The text-entry modes: a search query that filters the current column,
//! a new name for the current entry, or a shell command line.
use vstd::prelude::*;
use crate::direntry::{DirEntry, DirEntryView, dir_views};
use crate::text::{chars_of, string_of, lowercase, lower_of, contains, contains_seq, same_text};

verus! {

pub enum InputMode {
    Search(SearchTools),
    ChangeName(ChangeNameTools),
    Command(CommandTools),
}

/// A search: its query, the cursor while the bar is being edited (none
/// once it is left with the filter still on), and the unfiltered list.
pub struct SearchTools {
    pub query: String,
    pub cursor_index: Option<usize>,
    pub current_siblings_backup: Vec<DirEntry>,
}

pub struct ChangeNameTools {
    pub new_name: String,
    pub cursor_index: usize,
}

pub struct CommandTools {
    pub text: String,
    pub cursor_index: usize,
}

/// The text with `c` put before position `i`.
pub fn insert_char_at(s: &String, i: usize, c: char) -> (r: String)
    requires
        i <= s@.len(),
    ensures
        r@ == s@.insert(i as int, c),
{
    let mut cs = chars_of(s.as_str());
    cs.insert(i, c);
    string_of(&cs)
}

/// The text without its character at position `i`.
pub fn remove_char_at(s: &String, i: usize) -> (r: String)
    requires
        i < s@.len(),
    ensures
        r@ == s@.remove(i as int),
{
    let mut cs = chars_of(s.as_str());
    cs.remove(i);
    string_of(&cs)
}

/// The text without its last character.
pub fn without_last(s: &String) -> (r: String)
    requires
        s@.len() > 0,
    ensures
        r@ == s@.drop_last(),
{
    let mut cs = chars_of(s.as_str());
    cs.pop();
    string_of(&cs)
}

/// What `char::is_alphanumeric` says of a character.
pub uninterp spec fn alphanumeric(c: char) -> bool;

/// Relies on `char::is_alphanumeric`: the result depends on the character alone.
#[verifier::external_body]
fn is_alphanumeric(c: char) -> (r: bool)
    ensures
        r == alphanumeric(c),
{
    c.is_alphanumeric()
}

/// The punctuation that may be typed into a text field.
pub open spec fn typeable_symbol(c: char) -> bool {
    c == '_' || c == '!' || c == '@' || c == '#' || c == '$' || c == '%' || c == '^' || c == '&'
        || c == '*' || c == '(' || c == ')' || c == '-' || c == '=' || c == '+' || c == '.' || c == ','
        || c == '?' || c == '"' || c == '\'' || c == '[' || c == ']' || c == '{' || c == '}' || c == '<'
        || c == '>' || c == '~' || c == '\\' || c == '|' || c == ':' || c == ';' || c == '/' || c == ' '
}

/// Whether a typed character may enter a text field.
pub fn valid_input(c: char) -> (r: bool)
    ensures
        r == (alphanumeric(c) || typeable_symbol(c)),
{
    is_alphanumeric(c) || c == '_' || c == '!' || c == '@' || c == '#' || c == '$' || c == '%' || c == '^'
        || c == '&' || c == '*' || c == '(' || c == ')' || c == '-' || c == '=' || c == '+' || c == '.'
        || c == ',' || c == '?' || c == '"' || c == '\'' || c == '[' || c == ']' || c == '{' || c == '}'
        || c == '<' || c == '>' || c == '~' || c == '\\' || c == '|' || c == ':' || c == ';' || c == '/'
        || c == ' '
}

/// Whether a name matches a search query, given the lower-case forms of
/// both: a query with an upper-case letter matches case-sensitively, any
/// other ignoring case; an empty query matches everything.
pub open spec fn matches_query(name: Seq<char>, name_lower: Seq<char>, query: Seq<char>, query_lower: Seq<char>) -> bool {
    if query.len() == 0 {
        true
    } else if query_lower != query {
        contains_seq(name, query)
    } else {
        contains_seq(name_lower, query_lower)
    }
}

/// Whether a name matches a query, given the lower-case forms of both.
pub fn matches_folded(name: &str, name_lower: &str, query: &str, query_lower: &str) -> (r: bool)
    ensures
        r == matches_query(name@, name_lower@, query@, query_lower@),
{
    if query.unicode_len() == 0 {
        return true;
    }
    if !same_text(query_lower, query) {
        contains(name, query)
    } else {
        contains(name_lower, query_lower)
    }
}

pub open spec fn name_matches(name: Seq<char>, query: Seq<char>) -> bool {
    matches_query(name, lower_of(name), query, lower_of(query))
}

/// Whether a name matches a search query.
pub fn contains_pattern(string: &str, pattern: &str) -> (r: bool)
    ensures
        r == name_matches(string@, pattern@),
{
    if pattern.unicode_len() == 0 {
        return true;
    }
    let string_lower = lowercase(string);
    let pattern_lower = lowercase(pattern);
    matches_folded(string, string_lower.as_str(), pattern, pattern_lower.as_str())
}

/// The entries whose names match the query, in order.
pub open spec fn filtered(s: Seq<DirEntryView>, query: Seq<char>) -> Seq<DirEntryView>
    decreases s.len(),
{
    if s.len() == 0 {
        Seq::empty()
    } else if name_matches(s.last().name, query) {
        filtered(s.drop_last(), query).push(s.last())
    } else {
        filtered(s.drop_last(), query)
    }
}

/// Copies of the entries whose names match the query.
pub fn collect_entries_that_match(orig: &Vec<DirEntry>, pattern: &str) -> (r: Vec<DirEntry>)
    ensures
        dir_views(r@) == filtered(dir_views(orig@), pattern@),
{
    let mut r: Vec<DirEntry> = Vec::new();
    let mut i: usize = 0;
    while i < orig.len()
        invariant
            i <= orig@.len(),
            dir_views(r@) == filtered(dir_views(orig@).subrange(0, i as int), pattern@),
        decreases orig@.len() - i,
    {
        let ghost prev = r@;
        proof {
            let t = dir_views(orig@).subrange(0, i + 1);
            assert(t.drop_last() =~= dir_views(orig@).subrange(0, i as int));
            assert(t.last() == orig@[i as int]@);
        }
        if contains_pattern(orig[i].name.as_str(), pattern) {
            let d = orig[i].duplicate();
            r.push(d);
            assert(dir_views(r@) =~= dir_views(prev).push(d@));
        }
        i = i + 1;
    }
    assert(dir_views(orig@).subrange(0, i as int) =~= dir_views(orig@));
    r
}

/// Keeps, in order, the entries whose names match the query.
pub fn retain_matching(entries: Vec<DirEntry>, pattern: &str) -> (r: Vec<DirEntry>)
    ensures
        dir_views(r@) == filtered(dir_views(entries@), pattern@),
{
    let mut entries = entries;
    let ghost all = dir_views(entries@);
    let n: usize = entries.len();
    let mut r: Vec<DirEntry> = Vec::new();
    let mut i: usize = 0;
    while entries.len() > 0
        invariant
            all.len() == n,
            i + entries@.len() == n,
            dir_views(entries@) == all.subrange(i as int, n as int),
            dir_views(r@) == filtered(all.subrange(0, i as int), pattern@),
        decreases entries@.len(),
    {
        let ghost before = entries@;
        proof {
            assert(dir_views(before)[0] == all[i as int]);
        }
        let e = entries.remove(0);
        proof {
            assert(entries@ =~= before.subrange(1, before.len() as int));
            assert(dir_views(entries@) =~= dir_views(before).subrange(1, before.len() as int));
            assert(dir_views(entries@) =~= all.subrange(i + 1, n as int));
            let t = all.subrange(0, i + 1);
            assert(t.drop_last() =~= all.subrange(0, i as int));
            assert(t.last() == e@);
        }
        let ghost prev = r@;
        if contains_pattern(e.name.as_str(), pattern) {
            let ghost ev = e@;
            r.push(e);
            assert(dir_views(r@) =~= dir_views(prev).push(ev));
        }
        i = i + 1;
    }
    assert(all.subrange(0, n as int) =~= all);
    r
}

/// Filtering by a query again changes nothing: every entry kept once
/// matches the query, so it is kept again.
pub proof fn lemma_filter_idempotent(s: Seq<DirEntryView>, query: Seq<char>)
    ensures
        filtered(filtered(s, query), query) == filtered(s, query),
    decreases s.len(),
{
    if s.len() > 0 {
        lemma_filter_idempotent(s.drop_last(), query);
        let f = filtered(s.drop_last(), query);
        if name_matches(s.last().name, query) {
            assert(f.push(s.last()).drop_last() =~= f);
        }
    }
}

/// Every entry that a filter keeps matches the query and comes from the list.
pub proof fn lemma_filtered_members(s: Seq<DirEntryView>, query: Seq<char>)
    ensures
        forall|i: int| 0 <= i < filtered(s, query).len() ==> name_matches(#[trigger] filtered(s, query)[i].name, query)
            && s.contains(filtered(s, query)[i]),
        filtered(s, query).len() <= s.len(),
    decreases s.len(),
{
    if s.len() > 0 {
        lemma_filtered_members(s.drop_last(), query);
        let f = filtered(s.drop_last(), query);
        assert forall|i: int| 0 <= i < filtered(s, query).len() implies name_matches(#[trigger] filtered(s, query)[i].name, query)
            && s.contains(filtered(s, query)[i]) by {
            if name_matches(s.last().name, query) && i == f.len() {
                assert(s[s.len() - 1] == filtered(s, query)[i]);
            } else {
                assert(filtered(s, query)[i] == f[i]);
                assert(name_matches(f[i].name, query));
                assert(s.drop_last().contains(f[i]));
                let j = choose|j: int| 0 <= j < s.drop_last().len() && s.drop_last()[j] == f[i];
                assert(s[j] == f[i]);
            }
        }
    }
}

} // verus!
