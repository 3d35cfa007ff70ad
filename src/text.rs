//! Character-level text helpers: truncation, substitution, search.
use vstd::prelude::*;

verus! {

/// Relies on `String::push`: the character is appended at the end.
#[verifier::external_body]
pub(crate) fn push_char(s: &mut String, c: char)
    ensures
        final(s)@ == old(s)@.push(c),
{
    s.push(c)
}

/// What `str::to_lowercase` returns for a text.
pub uninterp spec fn lower_of(s: Seq<char>) -> Seq<char>;

/// Relies on `str::to_lowercase`: the result depends on the characters alone,
/// and an empty text stays empty.
#[verifier::external_body]
pub(crate) fn lowercase(s: &str) -> (r: String)
    ensures
        r@ == lower_of(s@),
        s@.len() == 0 ==> r@.len() == 0,
{
    s.to_lowercase()
}

/// The characters of a text, one by one.
pub fn chars_of(s: &str) -> (r: Vec<char>)
    ensures
        r@ == s@,
{
    let n = s.unicode_len();
    let mut r: Vec<char> = Vec::new();
    let mut i: usize = 0;
    while i < n
        invariant
            n == s@.len(),
            i <= n,
            r@ == s@.subrange(0, i as int),
        decreases n - i,
    {
        r.push(s.get_char(i));
        i = i + 1;
    }
    assert(r@ =~= s@);
    r
}

/// A text made of the given characters.
pub fn string_of(cs: &Vec<char>) -> (r: String)
    ensures
        r@ == cs@,
{
    let mut r = String::new();
    let mut i: usize = 0;
    while i < cs.len()
        invariant
            i <= cs@.len(),
            r@ == cs@.subrange(0, i as int),
        decreases cs@.len() - i,
    {
        push_char(&mut r, cs[i]);
        i = i + 1;
    }
    assert(r@ =~= cs@);
    r
}

/// Appends a text to another.
pub fn append_str(s: &mut String, t: &str)
    ensures
        final(s)@ == old(s)@ + t@,
{
    s.append(t);
}

/// A copy of a text.
pub fn copy_of(s: &str) -> (r: String)
    ensures
        r@ == s@,
{
    String::from_str(s)
}

pub open spec fn has_suffix(s: Seq<char>, suffix: Seq<char>) -> bool {
    suffix.len() <= s.len() && s.subrange(s.len() - suffix.len(), s.len() as int) == suffix
}

pub open spec fn has_prefix(s: Seq<char>, prefix: Seq<char>) -> bool {
    prefix.len() <= s.len() && s.subrange(0, prefix.len() as int) == prefix
}

pub open spec fn occurs_at(s: Seq<char>, pattern: Seq<char>, i: int) -> bool {
    0 <= i && i + pattern.len() <= s.len() && s.subrange(i, i + pattern.len()) == pattern
}

pub open spec fn contains_seq(s: Seq<char>, pattern: Seq<char>) -> bool {
    exists|i: int| occurs_at(s, pattern, i)
}

/// Whether `s` ends with `suffix`.
pub fn ends_with(s: &str, suffix: &str) -> (r: bool)
    ensures
        r == has_suffix(s@, suffix@),
{
    let n = s.unicode_len();
    let m = suffix.unicode_len();
    if m > n {
        return false;
    }
    let mut i: usize = 0;
    while i < m
        invariant
            n == s@.len(),
            m == suffix@.len(),
            m <= n,
            i <= m,
            forall|j: int| 0 <= j < i ==> s@[n - m + j] == suffix@[j],
        decreases m - i,
    {
        if s.get_char(n - m + i) != suffix.get_char(i) {
            assert(s@.subrange(n - m, n as int)[i as int] != suffix@[i as int]);
            return false;
        }
        i = i + 1;
    }
    assert(s@.subrange(n - m, n as int) =~= suffix@);
    true
}

/// Whether `s` starts with `prefix`.
pub fn starts_with(s: &str, prefix: &str) -> (r: bool)
    ensures
        r == has_prefix(s@, prefix@),
{
    let n = s.unicode_len();
    let m = prefix.unicode_len();
    if m > n {
        return false;
    }
    let mut i: usize = 0;
    while i < m
        invariant
            n == s@.len(),
            m == prefix@.len(),
            m <= n,
            i <= m,
            forall|j: int| 0 <= j < i ==> s@[j] == prefix@[j],
        decreases m - i,
    {
        if s.get_char(i) != prefix.get_char(i) {
            assert(s@.subrange(0, m as int)[i as int] != prefix@[i as int]);
            return false;
        }
        i = i + 1;
    }
    assert(s@.subrange(0, m as int) =~= prefix@);
    true
}

fn occurs_at_exec(s: &Vec<char>, p: &Vec<char>, i: usize) -> (r: bool)
    requires
        i + p@.len() <= s@.len(),
    ensures
        r == occurs_at(s@, p@, i as int),
{
    let sl = s.len();
    let mut j: usize = 0;
    while j < p.len()
        invariant
            sl == s@.len(),
            i + p@.len() <= s@.len(),
            j <= p@.len(),
            forall|k: int| 0 <= k < j ==> s@[i + k] == p@[k],
        decreases p@.len() - j,
    {
        if s[i + j] != p[j] {
            assert(s@.subrange(i as int, i + p@.len())[j as int] != p@[j as int]);
            return false;
        }
        j = j + 1;
    }
    assert(s@.subrange(i as int, i + p@.len()) =~= p@);
    true
}

/// Whether `pattern` occurs anywhere in `s`.
pub fn contains(s: &str, pattern: &str) -> (r: bool)
    ensures
        r == contains_seq(s@, pattern@),
{
    let sv = chars_of(s);
    let pv = chars_of(pattern);
    if pv.len() > sv.len() {
        return false;
    }
    if pv.len() == 0 {
        assert(s@.subrange(0, 0) =~= pattern@);
        assert(occurs_at(s@, pattern@, 0));
        return true;
    }
    let last = sv.len() - pv.len();
    let mut i: usize = 0;
    while i <= last
        invariant
            sv@ == s@,
            pv@ == pattern@,
            last == sv@.len() - pv@.len(),
            last < sv.len(),
            i <= last + 1,
            forall|k: int| 0 <= k < i ==> !occurs_at(s@, pattern@, k),
        decreases last + 1 - i,
    {
        if occurs_at_exec(&sv, &pv, i) {
            return true;
        }
        i = i + 1;
    }
    false
}

/// The number of characters in a text.
pub fn chars_amount(string: &str) -> (r: usize)
    ensures
        r == string@.len(),
{
    string.unicode_len()
}

/// The text with the characters from `start` up to `end` replaced; an `end`
/// past the last character removes everything from `start` on.
pub open spec fn replaced_range(s: Seq<char>, start: int, end: int, replacement: Seq<char>) -> Seq<char> {
    s.subrange(0, start) + replacement + if end < s.len() {
        s.subrange(end, s.len() as int)
    } else {
        Seq::empty()
    }
}

/// Replaces the characters of `string` in `start..end` by `replacement`.
pub fn replace_range_with(string: &str, start: usize, end: usize, replacement: &str) -> (r: String)
    requires
        start <= end,
        start <= string@.len(),
    ensures
        r@ == replaced_range(string@, start as int, end as int, replacement@),
{
    let cs = chars_of(string);
    let mut result = String::new();
    let mut i: usize = 0;
    while i < start
        invariant
            cs@ == string@,
            start <= cs@.len(),
            i <= start,
            result@ == cs@.subrange(0, i as int),
        decreases start - i,
    {
        push_char(&mut result, cs[i]);
        i = i + 1;
    }
    append_str(&mut result, replacement);
    let ghost mid = result@;
    if end < cs.len() {
        let mut j: usize = end;
        assert(mid + cs@.subrange(end as int, j as int) =~= mid);
        while j < cs.len()
            invariant
                cs@ == string@,
                end <= j <= cs@.len(),
                result@ == mid + cs@.subrange(end as int, j as int),
            decreases cs@.len() - j,
        {
            push_char(&mut result, cs[j]);
            j = j + 1;
            assert(cs@.subrange(end as int, j as int) =~= cs@.subrange(end as int, j - 1).push(cs@[j - 1]));
        }
    }
    assert(result@ =~= replaced_range(string@, start as int, end as int, replacement@));
    result
}

/// A long text keeps its first `max_length - 8` characters and its last
/// five, joined by three dots; a text that fits stays as it is.
pub open spec fn truncated_with_delimiter(s: Seq<char>, max_length: int) -> Seq<char> {
    if 0 <= max_length < s.len() {
        replaced_range(s, max_length - 8, s.len() - 5, seq!['.', '.', '.'])
    } else {
        s
    }
}

/// Shortens a text that is longer than `max_length` to exactly that many
/// characters, marking the cut with three dots.
pub fn truncate_with_delimiter(string: &str, max_length: i32) -> (r: String)
    requires
        0 <= max_length < string@.len() ==> max_length >= 8,
    ensures
        r@ == truncated_with_delimiter(string@, max_length as int),
{
    let chars_amount = chars_amount(string);
    if max_length >= 0 && chars_amount > max_length as usize {
        let delimiter = "...";
        proof {
            reveal_strlit("...");
        }
        let leave_at_end: usize = 5;
        let start = max_length as usize - (leave_at_end + 3);
        let end = chars_amount - leave_at_end;
        replace_range_with(string, start, end, delimiter)
    } else {
        copy_of(string)
    }
}

/// What a control character looks like once made printable: a carriage
/// return as `^M`, a tab as four spaces.
pub open spec fn printable(c: char) -> Seq<char> {
    if c == '\r' {
        seq!['^', 'M']
    } else if c == '\t' {
        seq![' ', ' ', ' ', ' ']
    } else {
        seq![c]
    }
}

pub open spec fn printable_text(s: Seq<char>) -> Seq<char>
    decreases s.len(),
{
    if s.len() == 0 {
        Seq::empty()
    } else {
        printable_text(s.drop_last()) + printable(s.last())
    }
}

pub open spec fn at_most(s: Seq<char>, n: int) -> Seq<char> {
    if n < s.len() {
        s.subrange(0, n)
    } else {
        s
    }
}

/// The first `max_length` characters of the text made printable.
pub fn maybe_truncate(string: &str, max_length: usize) -> (r: String)
    ensures
        r@ == at_most(printable_text(string@), max_length as int),
{
    let cs = chars_of(string);
    let mut expanded: Vec<char> = Vec::new();
    let mut i: usize = 0;
    while i < cs.len()
        invariant
            cs@ == string@,
            i <= cs@.len(),
            expanded@ == printable_text(cs@.subrange(0, i as int)),
        decreases cs@.len() - i,
    {
        let c = cs[i];
        if c == '\r' {
            expanded.push('^');
            expanded.push('M');
        } else if c == '\t' {
            expanded.push(' ');
            expanded.push(' ');
            expanded.push(' ');
            expanded.push(' ');
        } else {
            expanded.push(c);
        }
        assert(cs@.subrange(0, i + 1).drop_last() =~= cs@.subrange(0, i as int));
        i = i + 1;
        assert(expanded@ =~= printable_text(cs@.subrange(0, i as int)));
    }
    assert(cs@.subrange(0, cs@.len() as int) =~= cs@);
    let mut result = String::new();
    let mut k: usize = 0;
    while k < expanded.len() && k < max_length
        invariant
            k <= expanded@.len(),
            k <= max_length,
            result@ == expanded@.subrange(0, k as int),
        decreases expanded@.len() - k,
    {
        push_char(&mut result, expanded[k]);
        k = k + 1;
    }
    assert(result@ =~= at_most(expanded@, max_length as int));
    result
}

/// Whether two texts are the same characters.
pub fn same_text(a: &str, b: &str) -> (r: bool)
    ensures
        r == (a@ == b@),
{
    let n = a.unicode_len();
    if n != b.unicode_len() {
        return false;
    }
    let mut i: usize = 0;
    while i < n
        invariant
            n == a@.len(),
            n == b@.len(),
            i <= n,
            forall|k: int| 0 <= k < i ==> a@[k] == b@[k],
        decreases n - i,
    {
        if a.get_char(i) != b.get_char(i) {
            return false;
        }
        i = i + 1;
    }
    assert(a@ =~= b@);
    true
}

/// Whether a character has the Unicode White_Space property, which is
/// what `char::is_whitespace` tests.
pub open spec fn white_space(c: char) -> bool {
    let u = c as u32;
    (0x9 <= u <= 0xD) || u == 0x20 || u == 0x85 || u == 0xA0 || u == 0x1680 || (0x2000 <= u <= 0x200A)
        || u == 0x2028 || u == 0x2029 || u == 0x202F || u == 0x205F || u == 0x3000
}

/// Whether a character has the Unicode White_Space property.
pub fn is_white_space(c: char) -> (r: bool)
    ensures
        r == white_space(c),
{
    let u = c as u32;
    (0x9 <= u && u <= 0xD) || u == 0x20 || u == 0x85 || u == 0xA0 || u == 0x1680 || (0x2000 <= u && u <= 0x200A)
        || u == 0x2028 || u == 0x2029 || u == 0x202F || u == 0x205F || u == 0x3000
}

} // verus!
