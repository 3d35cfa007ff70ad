//! The third column: the children of the current directory, a preview of
//! the current file, or nothing.
use vstd::prelude::*;
use crate::coloring::PaintSettings;
use crate::direntry::{DirEntry, into_sorted_direntries, dir_entries_of, dir_views, sorted_by};
use crate::entry::{Entry, select_listing, listing_of, views_of};
use crate::input::SortingType;
use crate::path::FsPath;
use crate::text::{ends_with, maybe_truncate, at_most, printable_text, chars_of, string_of, white_space, is_white_space};

verus! {

pub enum RightColumn {
    Siblings(Vec<DirEntry>),
    Preview(Vec<String>),
    Empty,
}

/// What was read for the current path: a directory's raw listing, the
/// first lines of a previewable file, or nothing to show.
pub enum RightListing {
    Dir(Vec<Entry>),
    Preview(Vec<String>),
    Nothing,
}

/// The text without its trailing white space.
pub open spec fn trimmed_end(s: Seq<char>) -> Seq<char>
    decreases s.len(),
{
    if s.len() > 0 && white_space(s.last()) {
        trimmed_end(s.drop_last())
    } else {
        s
    }
}

/// The text without its trailing white space.
fn trim_end(s: &str) -> (r: String)
    ensures
        r@ == trimmed_end(s@),
{
    let cs = chars_of(s);
    let mut n: usize = cs.len();
    assert(cs@.subrange(0, n as int) =~= s@);
    while n > 0 && is_white_space(cs[n - 1])
        invariant
            cs@ == s@,
            n <= cs@.len(),
            trimmed_end(s@) == trimmed_end(cs@.subrange(0, n as int)),
        decreases n,
    {
        assert(cs@.subrange(0, n as int).drop_last() =~= cs@.subrange(0, n - 1));
        n = n - 1;
    }
    let mut kept: Vec<char> = Vec::new();
    let mut i: usize = 0;
    while i < n
        invariant
            n <= cs@.len(),
            i <= n,
            kept@ == cs@.subrange(0, i as int),
        decreases n - i,
    {
        kept.push(cs[i]);
        i = i + 1;
        assert(kept@ =~= cs@.subrange(0, i as int));
    }
    string_of(&kept)
}

/// A preview line as the column shows it.
pub open spec fn preview_line(line: Seq<char>, max_width: usize) -> Seq<char> {
    at_most(printable_text(trimmed_end(line)), max_width as int)
}

/// The column that a listing gives: the sorted children of a directory
/// (the shown ones, at most `max_height + 2` of them, marked where
/// selected), at most `max_height` preview lines made printable and cut to
/// the width, or nothing.
pub open spec fn column_of_listing(
    listing: RightListing,
    r: RightColumn,
    path: Seq<Seq<char>>,
    settings: PaintSettings,
    sorting_type: SortingType,
    include_hidden: bool,
    max_height: usize,
    max_width: usize,
    selected: Seq<FsPath>,
) -> bool {
    match (listing, r) {
        (RightListing::Dir(es), RightColumn::Siblings(s)) => {
            let expected = dir_entries_of(
                listing_of(views_of(es@), Some(max_height), include_hidden),
                settings,
                selected,
                Some(path),
            );
            &&& sorted_by(sorting_type, dir_views(s@))
            &&& dir_views(s@).to_multiset() == expected.to_multiset()
            &&& sorting_type == SortingType::Any ==> dir_views(s@) == expected
            &&& exists|idx: Seq<int>| crate::direntry::stable_arrangement(sorting_type, expected, dir_views(s@), idx)
        },
        (RightListing::Preview(ls), RightColumn::Preview(ps)) => {
            &&& ps@.len() == if ls@.len() <= max_height { ls@.len() } else { max_height as nat }
            &&& forall|i: int| 0 <= i < ps@.len() ==> ps@[i]@ == preview_line(ls@[i]@, max_width)
        },
        (RightListing::Nothing, RightColumn::Empty) => true,
        _ => false,
    }
}

impl RightColumn {
    /// The column for what was read of the current path: the sorted
    /// children of a directory (at most `max_height + 2` of them), or the
    /// first `max_height` preview lines cut to the column's width.
    pub fn collect(
        listing: RightListing,
        path: &FsPath,
        paint_settings: &PaintSettings,
        sorting_type: &SortingType,
        include_hidden: bool,
        max_height: usize,
        max_width: usize,
        selected: &Vec<FsPath>,
    ) -> (r: RightColumn)
        ensures
            column_of_listing(listing, r, path@, *paint_settings, *sorting_type, include_hidden, max_height, max_width, selected@),
    {
        match listing {
            RightListing::Dir(entries) => {
                let shown = select_listing(entries, Some(max_height), include_hidden);
                RightColumn::with_siblings(into_sorted_direntries(shown, paint_settings, sorting_type, selected, Some(path)))
            },
            RightListing::Preview(lines) => {
                let mut out: Vec<String> = Vec::new();
                let mut i: usize = 0;
                while i < lines.len() && i < max_height
                    invariant
                        i <= lines@.len(),
                        i <= max_height,
                        out@.len() == i,
                        forall|k: int| 0 <= k < i ==> out@[k]@ == preview_line(lines@[k]@, max_width),
                    decreases lines@.len() - i,
                {
                    out.push(maybe_truncate(trim_end(lines[i].as_str()).as_str(), max_width));
                    i = i + 1;
                }
                RightColumn::with_preview(out)
            },
            RightListing::Nothing => RightColumn::empty(),
        }
    }

    pub fn with_siblings(siblings: Vec<DirEntry>) -> (r: RightColumn)
        ensures
            r == RightColumn::Siblings(siblings),
    {
        RightColumn::Siblings(siblings)
    }

    pub fn with_preview(preview: Vec<String>) -> (r: RightColumn)
        ensures
            r == RightColumn::Preview(preview),
    {
        RightColumn::Preview(preview)
    }

    pub fn empty() -> (r: RightColumn)
        ensures
            r is Empty,
    {
        RightColumn::Empty
    }

    pub fn siblings_ref(&self) -> (r: Option<&Vec<DirEntry>>)
        ensures
            match self {
                RightColumn::Siblings(s) => r == Some(s),
                _ => r is None,
            },
    {
        match self {
            RightColumn::Siblings(s) => Some(s),
            _ => None,
        }
    }

    pub fn preview_ref(&self) -> (r: Option<&Vec<String>>)
        ensures
            match self {
                RightColumn::Preview(p) => r == Some(p),
                _ => r is None,
            },
    {
        match self {
            RightColumn::Preview(p) => Some(p),
            _ => None,
        }
    }
}

pub open spec fn text_extensions_spec() -> Seq<Seq<char>> {
    seq![
        "txt"@, "cpp"@, "h"@, "rs"@, "lock"@, "toml"@, "zsh"@, "java"@, "py"@, "sh"@,
        "md"@, "log"@, "yml"@, "tex"@, "nb"@, "js"@, "ts"@, "html"@, "css"@, "json"@,
    ]
}

pub open spec fn text_exact_names_spec() -> Seq<Seq<char>> {
    seq!["Makefile"@, ".gitignore"@]
}

/// A file can be previewed when its name is one of the known text names,
/// or ends with one of the text extensions.
pub open spec fn previewable(name: Seq<char>) -> bool {
    (exists|i: int| 0 <= i < text_exact_names_spec().len() && name == text_exact_names_spec()[i])
        || (exists|i: int| 0 <= i < text_extensions_spec().len() && crate::text::has_suffix(name, text_extensions_spec()[i]))
}

pub open spec fn strs_view(v: Seq<&'static str>) -> Seq<Seq<char>> {
    v.map_values(|s: &'static str| s@)
}

/// Extensions of files that are opened in the text editor and previewed.
pub fn text_extensions() -> (r: Vec<&'static str>)
    ensures
        strs_view(r@) == text_extensions_spec(),
{
    let r = vec!["txt", "cpp", "h", "rs", "lock", "toml", "zsh", "java", "py",
        "sh", "md", "log", "yml", "tex", "nb", "js", "ts", "html", "css", "json"];
    assert(strs_view(r@) =~= text_extensions_spec());
    r
}

/// Whole names of files that are opened in the text editor and previewed.
pub fn text_exact_names() -> (r: Vec<&'static str>)
    ensures
        strs_view(r@) == text_exact_names_spec(),
{
    let r = vec!["Makefile", ".gitignore"];
    assert(strs_view(r@) =~= text_exact_names_spec());
    r
}

/// Whether the file with this name can be previewed.
pub fn is_previewable(file_name: &str) -> (r: bool)
    ensures
        r == previewable(file_name@),
{
    let names = text_exact_names();
    let mut i: usize = 0;
    while i < names.len()
        invariant
            strs_view(names@) == text_exact_names_spec(),
            i <= names@.len(),
            forall|k: int| 0 <= k < i ==> file_name@ != text_exact_names_spec()[k],
        decreases names@.len() - i,
    {
        assert(strs_view(names@)[i as int] == names@[i as int]@);
        if crate::text::same_text(file_name, names[i]) {
            return true;
        }
        i = i + 1;
    }
    let exts = text_extensions();
    let mut j: usize = 0;
    while j < exts.len()
        invariant
            strs_view(exts@) == text_extensions_spec(),
            j <= exts@.len(),
            forall|k: int| 0 <= k < text_exact_names_spec().len() ==> file_name@ != text_exact_names_spec()[k],
            forall|k: int| 0 <= k < j ==> !crate::text::has_suffix(file_name@, text_extensions_spec()[k]),
        decreases exts@.len() - j,
    {
        assert(strs_view(exts@)[j as int] == exts@[j as int]@);
        if ends_with(file_name, exts[j]) {
            return true;
        }
        j = j + 1;
    }
    false
}

} // verus!
