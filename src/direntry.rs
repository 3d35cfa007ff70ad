//! Entries as the columns show them: with a paint and a selection flag.
use vstd::prelude::*;
use vstd::seq_lib::*;
use vstd::multiset::Multiset;
use crate::coloring::{Paint, PaintSettings, paint_of, paint_for};
use crate::entry::{Entry, EntryType, EntryView, Permissions, permissions_valid, permissions_text, views_of};
use crate::input::SortingType;
use crate::path::FsPath;
use crate::text::{chars_of, copy_of};

verus! {

pub struct DirEntry {
    pub entrytype: EntryType,
    pub name: String,
    pub size: u64,
    pub time_modified: u64,
    pub permissions: Permissions,
    pub paint: Paint,
    pub is_selected: bool,
}

pub ghost struct DirEntryView {
    pub entrytype: EntryType,
    pub name: Seq<char>,
    pub size: u64,
    pub time_modified: u64,
    pub permissions: Permissions,
    pub paint: Paint,
    pub is_selected: bool,
}

impl View for DirEntry {
    type V = DirEntryView;

    open spec fn view(&self) -> DirEntryView {
        DirEntryView {
            entrytype: self.entrytype,
            name: self.name@,
            size: self.size,
            time_modified: self.time_modified,
            permissions: self.permissions,
            paint: self.paint,
            is_selected: self.is_selected,
        }
    }
}

pub open spec fn dir_views(s: Seq<DirEntry>) -> Seq<DirEntryView> {
    s.map_values(|e: DirEntry| e@)
}

pub open spec fn partially_executable(p: Permissions) -> bool {
    p.world % 2 == 1 || p.group % 2 == 1 || p.owner % 2 == 1
}

/// The entry as a column shows it.
pub open spec fn dir_entry_of(e: EntryView, settings: PaintSettings, is_selected: bool) -> DirEntryView {
    DirEntryView {
        entrytype: e.entrytype,
        name: e.name,
        size: e.size,
        time_modified: e.time_modified,
        permissions: e.permissions,
        paint: paint_of(e.entrytype, e.name, partially_executable(e.permissions), settings),
        is_selected,
    }
}

impl DirEntry {
    pub fn from_entry(entry: Entry, paint_settings: &PaintSettings, is_selected: bool) -> (r: DirEntry)
        ensures
            r@ == dir_entry_of(entry@, *paint_settings, is_selected),
    {
        let executable = DirEntry::is_partially_executable(&entry);
        let paint = paint_for(&entry.entrytype, entry.name.as_str(), executable, paint_settings);
        DirEntry {
            entrytype: entry.entrytype,
            name: entry.name,
            size: entry.size,
            time_modified: entry.time_modified,
            permissions: entry.permissions,
            paint,
            is_selected,
        }
    }

    fn is_partially_executable(entry: &Entry) -> (r: bool)
        ensures
            r == partially_executable(entry.permissions),
    {
        entry.permissions.world % 2 == 1 || entry.permissions.group % 2 == 1 || entry.permissions.owner % 2 == 1
    }

    pub fn is_symlink(&self) -> (r: bool)
        ensures
            r == (self.entrytype == EntryType::Symlink),
    {
        self.entrytype == EntryType::Symlink
    }

    pub fn is_dir(&self) -> (r: bool)
        ensures
            r == (self.entrytype == EntryType::Directory),
    {
        self.entrytype == EntryType::Directory
    }

    /// A copy of the entry.
    pub fn duplicate(&self) -> (r: DirEntry)
        ensures
            r@ == self@,
    {
        DirEntry {
            entrytype: self.entrytype,
            name: copy_of(self.name.as_str()),
            size: self.size,
            time_modified: self.time_modified,
            permissions: self.permissions,
            paint: self.paint,
            is_selected: self.is_selected,
        }
    }
}

/// A copy of a list of entries.
pub fn duplicate_all(entries: &Vec<DirEntry>) -> (r: Vec<DirEntry>)
    ensures
        dir_views(r@) == dir_views(entries@),
{
    let mut r: Vec<DirEntry> = Vec::new();
    let mut i: usize = 0;
    while i < entries.len()
        invariant
            i <= entries@.len(),
            dir_views(r@) == dir_views(entries@).subrange(0, i as int),
        decreases entries@.len() - i,
    {
        let ghost prev = r@;
        let d = entries[i].duplicate();
        r.push(d);
        assert(r@ =~= prev.push(d));
        assert(dir_views(r@) =~= dir_views(prev).push(d@));
        i = i + 1;
        assert(dir_views(r@) =~= dir_views(entries@).subrange(0, i as int));
    }
    assert(dir_views(entries@).subrange(0, i as int) =~= dir_views(entries@));
    r
}

/// The line shown under the columns for a symbolic link: where it points.
pub open spec fn additional_info(entry: Option<DirEntryView>, target: Option<Seq<char>>) -> Option<Seq<char>> {
    match entry {
        Some(e) => if e.entrytype != EntryType::Directory && e.entrytype == EntryType::Symlink {
            match target {
                Some(t) => Some(seq!['-', '>', ' '] + t),
                None => None,
            }
        } else {
            None
        },
        None => None,
    }
}

/// `-> target` for a symbolic link whose target is known, else nothing.
pub fn get_additional_entry_info(entry: Option<&DirEntry>, symlink_target: &Option<String>) -> (r: Option<String>)
    ensures
        opt_text(r) == additional_info(opt_view(entry), opt_text(*symlink_target)),
{
    if let Some(entry) = entry {
        if entry.is_dir() {
        } else if entry.is_symlink() {
            if let Some(target) = symlink_target {
                let mut text = copy_of("-> ");
                proof {
                    reveal_strlit("-> ");
                    assert("-> "@ =~= seq!['-', '>', ' ']);
                }
                text.append(target.as_str());
                return Some(text);
            }
        }
    }
    None
}

pub open spec fn opt_text(o: Option<String>) -> Option<Seq<char>> {
    match o {
        Some(s) => Some(s@),
        None => None,
    }
}

pub open spec fn opt_view(o: Option<&DirEntry>) -> Option<DirEntryView> {
    match o {
        Some(e) => Some(e@),
        None => None,
    }
}

/// Whether the set of selected paths holds `p`.
pub open spec fn selection_has(selected: Seq<FsPath>, p: Seq<Seq<char>>) -> bool {
    exists|i: int| 0 <= i < selected.len() && #[trigger] selected[i]@ == p
}

pub open spec fn selected_in(selected: Seq<FsPath>, name: Seq<char>, parent: Option<Seq<Seq<char>>>) -> bool {
    match parent {
        Some(p) => selection_has(selected, p.push(name)),
        None => false,
    }
}

pub open spec fn opt_path(o: Option<&FsPath>) -> Option<Seq<Seq<char>>> {
    match o {
        Some(p) => Some(p@),
        None => None,
    }
}

/// Whether the entry `name` inside `parent_path` is among the selected paths.
pub fn is_selected(selected: &Vec<FsPath>, name: &str, parent_path: Option<&FsPath>) -> (r: bool)
    ensures
        r == selected_in(selected@, name@, opt_path(parent_path)),
{
    if let Some(pp) = parent_path {
        let full = pp.join(name);
        let mut i: usize = 0;
        while i < selected.len()
            invariant
                parent_path == Some(pp),
                full@ == pp@.push(name@),
                i <= selected@.len(),
                forall|k: int| 0 <= k < i ==> selected@[k]@ != full@,
            decreases selected@.len() - i,
        {
            if selected[i].same(&full) {
                assert(selected@[i as int]@ == pp@.push(name@));
                assert(selection_has(selected@, pp@.push(name@)));
                return true;
            }
            i = i + 1;
        }
        false
    } else {
        false
    }
}

pub open spec fn dir_entries_of(
    entries: Seq<EntryView>,
    settings: PaintSettings,
    selected: Seq<FsPath>,
    parent: Option<Seq<Seq<char>>>,
) -> Seq<DirEntryView> {
    entries.map_values(|e: EntryView| dir_entry_of(e, settings, selected_in(selected, e.name, parent)))
}

/// The entries with their paints, marked where they are selected.
pub fn into_direntries(
    entries: Vec<Entry>,
    paint_settings: &PaintSettings,
    selected: &Vec<FsPath>,
    parent_path: Option<&FsPath>,
) -> (r: Vec<DirEntry>)
    ensures
        dir_views(r@) == dir_entries_of(views_of(entries@), *paint_settings, selected@, opt_path(parent_path)),
{
    let mut entries = entries;
    let ghost all = views_of(entries@);
    let n: usize = entries.len();
    let mut r: Vec<DirEntry> = Vec::new();
    let mut i: usize = 0;
    while entries.len() > 0
        invariant
            all.len() == n,
            i + entries@.len() == n,
            views_of(entries@) == all.subrange(i as int, n as int),
            dir_views(r@) == dir_entries_of(all.subrange(0, i as int), *paint_settings, selected@, opt_path(parent_path)),
        decreases entries@.len(),
    {
        let ghost before = entries@;
        proof {
            assert(views_of(before)[0] == all[i as int]);
        }
        let e = entries.remove(0);
        proof {
            assert(entries@ =~= before.subrange(1, before.len() as int));
            assert(views_of(entries@) =~= views_of(before).subrange(1, before.len() as int));
            assert(views_of(entries@) =~= all.subrange(i + 1, n as int));
            assert(e@ == all[i as int]);
        }
        let sel = is_selected(selected, e.name.as_str(), parent_path);
        let ghost prev = r@;
        let d = DirEntry::from_entry(e, paint_settings, sel);
        r.push(d);
        assert(r@ =~= prev.push(d));
        assert(dir_views(r@) =~= dir_views(prev).push(d@));
        assert(all.subrange(0, i + 1) =~= all.subrange(0, i as int).push(all[i as int]));
        i = i + 1;
        assert(dir_views(r@) =~= dir_entries_of(all.subrange(0, i as int), *paint_settings, selected@, opt_path(parent_path)));
    }
    assert(all.subrange(0, n as int) =~= all);
    r
}

/// Lexicographic order of texts by character.
pub open spec fn lex_le(a: Seq<char>, b: Seq<char>) -> bool
    decreases a.len(),
{
    if a.len() == 0 {
        true
    } else if b.len() == 0 {
        false
    } else if (a[0] as u32) < (b[0] as u32) {
        true
    } else if (a[0] as u32) > (b[0] as u32) {
        false
    } else {
        lex_le(a.drop_first(), b.drop_first())
    }
}

proof fn lemma_lex_total(a: Seq<char>, b: Seq<char>)
    ensures
        lex_le(a, b) || lex_le(b, a),
    decreases a.len(),
{
    if a.len() > 0 && b.len() > 0 && a[0] as u32 == b[0] as u32 {
        lemma_lex_total(a.drop_first(), b.drop_first());
    }
}

proof fn lemma_lex_trans(a: Seq<char>, b: Seq<char>, c: Seq<char>)
    requires
        lex_le(a, b),
        lex_le(b, c),
    ensures
        lex_le(a, c),
    decreases a.len(),
{
    if a.len() > 0 && b.len() > 0 && c.len() > 0 && a[0] as u32 == b[0] as u32 && b[0] as u32 == c[0] as u32 {
        lemma_lex_trans(a.drop_first(), b.drop_first(), c.drop_first());
    }
}

/// Whether `a` may stand before `b` in a list sorted the given way.
pub open spec fn in_order(sorting_type: SortingType, a: DirEntryView, b: DirEntryView) -> bool {
    match sorting_type {
        SortingType::Lexicographically => lex_le(a.name, b.name),
        SortingType::TimeModified => a.time_modified <= b.time_modified,
        SortingType::Any => true,
    }
}

proof fn lemma_order_total(t: SortingType, a: DirEntryView, b: DirEntryView)
    ensures
        in_order(t, a, b) || in_order(t, b, a),
{
    if t == SortingType::Lexicographically {
        lemma_lex_total(a.name, b.name);
    }
}

proof fn lemma_order_trans(t: SortingType, a: DirEntryView, b: DirEntryView, c: DirEntryView)
    requires
        in_order(t, a, b),
        in_order(t, b, c),
    ensures
        in_order(t, a, c),
{
    if t == SortingType::Lexicographically {
        lemma_lex_trans(a.name, b.name, c.name);
    }
}

pub open spec fn sorted_by(t: SortingType, s: Seq<DirEntryView>) -> bool {
    forall|i: int, j: int| 0 <= i < j < s.len() ==> in_order(t, #[trigger] s[i], #[trigger] s[j])
}

fn lex_le_exec(a: &str, b: &str) -> (r: bool)
    ensures
        r == lex_le(a@, b@),
{
    let av = chars_of(a);
    let bv = chars_of(b);
    let mut i: usize = 0;
    assert(a@.subrange(0, a@.len() as int) =~= a@);
    assert(b@.subrange(0, b@.len() as int) =~= b@);
    while i < av.len() && i < bv.len() && av[i] as u32 == bv[i] as u32
        invariant
            av@ == a@,
            bv@ == b@,
            i <= av@.len(),
            i <= bv@.len(),
            lex_le(a@, b@) == lex_le(a@.subrange(i as int, a@.len() as int), b@.subrange(i as int, b@.len() as int)),
        decreases av@.len() - i,
    {
        proof {
            let sa = a@.subrange(i as int, a@.len() as int);
            let sb = b@.subrange(i as int, b@.len() as int);
            assert(sa.drop_first() =~= a@.subrange(i + 1, a@.len() as int));
            assert(sb.drop_first() =~= b@.subrange(i + 1, b@.len() as int));
        }
        i = i + 1;
    }
    if i == av.len() {
        true
    } else if i == bv.len() {
        false
    } else {
        (av[i] as u32) < (bv[i] as u32)
    }
}

fn in_order_exec(sorting_type: SortingType, a: &DirEntry, b: &DirEntry) -> (r: bool)
    ensures
        r == in_order(sorting_type, a@, b@),
{
    match sorting_type {
        SortingType::Lexicographically => lex_le_exec(a.name.as_str(), b.name.as_str()),
        SortingType::TimeModified => a.time_modified <= b.time_modified,
        SortingType::Any => true,
    }
}

/// Whether `a` and `b` sort alike: neither must come first.
pub open spec fn sort_alike(t: SortingType, a: DirEntryView, b: DirEntryView) -> bool {
    in_order(t, a, b) && in_order(t, b, a)
}

/// `r` is `input` rearranged: its `i`-th entry is the input's `idx[i]`-th,
/// each input entry used once, and entries that sort alike in the input
/// order.
pub open spec fn stable_arrangement(t: SortingType, input: Seq<DirEntryView>, r: Seq<DirEntryView>, idx: Seq<int>) -> bool {
    &&& idx.len() == r.len()
    &&& r.len() == input.len()
    &&& forall|i: int| 0 <= i < r.len() ==> 0 <= #[trigger] idx[i] < input.len() && r[i] == input[idx[i]]
    &&& forall|i: int, j: int| 0 <= i < j < r.len() ==> #[trigger] idx[i] != #[trigger] idx[j]
    &&& forall|i: int, j: int| 0 <= i < j < r.len() && sort_alike(t, #[trigger] r[i], #[trigger] r[j]) ==> idx[i] < idx[j]
}

/// The entries in the order the sorting type asks for; entries that sort
/// alike keep their order, and the unsorted order is the listing's own.
pub fn sort(entries: Vec<DirEntry>, sorting_type: &SortingType) -> (r: Vec<DirEntry>)
    ensures
        sorted_by(*sorting_type, dir_views(r@)),
        exists|idx: Seq<int>| stable_arrangement(*sorting_type, dir_views(entries@), dir_views(r@), idx),
        dir_views(r@).to_multiset() == dir_views(entries@).to_multiset(),
        *sorting_type == SortingType::Any ==> dir_views(r@) == dir_views(entries@),
{
    broadcast use group_to_multiset_ensures, vstd::multiset::group_multiset_axioms;
    if *sorting_type == SortingType::Any {
        proof {
            let v = dir_views(entries@);
            let idx = Seq::new(v.len(), |i: int| i);
            assert(stable_arrangement(*sorting_type, v, v, idx));
        }
        return entries;
    }
    let t = *sorting_type;
    let mut rest = entries;
    let ghost all = dir_views(rest@);
    let mut r: Vec<DirEntry> = Vec::new();
    let ghost mut idx: Seq<int> = Seq::empty();
    let n: usize = rest.len();
    proof {
        assert(dir_views(r@) =~= Seq::<DirEntryView>::empty());
        assert(dir_views(r@).to_multiset() =~= Multiset::empty());
        assert(dir_views(r@).to_multiset().add(all.to_multiset()) =~= all.to_multiset());
    }
    while rest.len() > 0
        invariant
            sorted_by(t, dir_views(r@)),
            dir_views(r@).to_multiset().add(dir_views(rest@).to_multiset()) == all.to_multiset(),
            all.len() == n,
            r@.len() + rest@.len() == n,
            dir_views(rest@) == all.subrange(r@.len() as int, n as int),
            idx.len() == r@.len(),
            forall|i: int| 0 <= i < r@.len() ==> 0 <= #[trigger] idx[i] < r@.len() && dir_views(r@)[i] == all[idx[i]],
            forall|i: int, j: int| 0 <= i < j < r@.len() ==> #[trigger] idx[i] != #[trigger] idx[j],
            forall|i: int, j: int| 0 <= i < j < r@.len() && sort_alike(t, #[trigger] dir_views(r@)[i], #[trigger] dir_views(r@)[j])
                ==> idx[i] < idx[j],
        decreases rest@.len(),
    {
        let ghost before = rest@;
        let taken = r.len();
        let x = rest.remove(0);
        proof {
            assert(dir_views(rest@) =~= dir_views(before).remove(0));
            assert(dir_views(before)[0] == x@);
            assert(all[taken as int] == dir_views(before)[0]);
            assert(dir_views(rest@) =~= all.subrange(taken + 1, n as int));
            to_multiset_remove(dir_views(before), 0);
        }
        let mut pos: usize = 0;
        while pos < r.len() && in_order_exec(t, &r[pos], &x)
            invariant
                pos <= r@.len(),
                forall|k: int| 0 <= k < pos ==> in_order(t, #[trigger] dir_views(r@)[k], x@),
            decreases r@.len() - pos,
        {
            pos = pos + 1;
        }
        let ghost old_r = dir_views(r@);
        proof {
            if pos < r@.len() {
                lemma_order_total(t, old_r[pos as int], x@);
                assert forall|j: int| pos <= j < old_r.len() implies in_order(t, x@, #[trigger] old_r[j]) by {
                    if j > pos {
                        lemma_order_trans(t, x@, old_r[pos as int], old_r[j]);
                    }
                }
            }
        }
        r.insert(pos, x);
        proof {
            let nr = dir_views(r@);
            assert(nr =~= old_r.insert(pos as int, x@));
            to_multiset_insert(old_r, pos as int, x@);
            assert(dir_views(before)[0] == x@);
            assert(dir_views(before).contains(x@));
            to_multiset_contains(dir_views(before), x@);
            assert(dir_views(before).to_multiset().count(x@) > 0);
            assert(nr.to_multiset().add(dir_views(rest@).to_multiset()) =~= all.to_multiset());
            assert forall|i: int, j: int| 0 <= i < j < nr.len() implies in_order(t, #[trigger] nr[i], #[trigger] nr[j]) by {
                if j < pos {
                } else if j == pos {
                } else if i < pos {
                    assert(nr[j] == old_r[j - 1]);
                    lemma_order_trans(t, nr[i], x@, nr[j]);
                } else if i == pos {
                    assert(nr[j] == old_r[j - 1]);
                } else {
                    assert(nr[i] == old_r[i - 1]);
                    assert(nr[j] == old_r[j - 1]);
                }
            }
            let old_idx = idx;
            let nidx = old_idx.insert(pos as int, taken as int);
            assert forall|i: int| 0 <= i < nr.len() implies 0 <= #[trigger] nidx[i] < nr.len() && nr[i] == all[nidx[i]] by {
                if i < pos {
                    assert(nidx[i] == old_idx[i]);
                } else if i > pos {
                    assert(nidx[i] == old_idx[i - 1]);
                    assert(nr[i] == old_r[i - 1]);
                }
            }
            assert forall|i: int, j: int| 0 <= i < j < nr.len() implies #[trigger] nidx[i] != #[trigger] nidx[j] by {
                if i < pos && j > pos {
                    assert(nidx[i] == old_idx[i]);
                    assert(nidx[j] == old_idx[j - 1]);
                } else if i > pos {
                    assert(nidx[i] == old_idx[i - 1]);
                    assert(nidx[j] == old_idx[j - 1]);
                } else if j < pos {
                    assert(nidx[i] == old_idx[i]);
                    assert(nidx[j] == old_idx[j]);
                } else if i == pos {
                    assert(nidx[j] == old_idx[j - 1]);
                } else {
                    assert(nidx[i] == old_idx[i]);
                }
            }
            assert forall|i: int, j: int| 0 <= i < j < nr.len() && sort_alike(t, #[trigger] nr[i], #[trigger] nr[j])
                implies nidx[i] < nidx[j] by {
                if j < pos {
                    assert(nidx[i] == old_idx[i]);
                    assert(nidx[j] == old_idx[j]);
                    assert(nr[i] == old_r[i]);
                    assert(nr[j] == old_r[j]);
                } else if j == pos {
                    assert(nidx[i] == old_idx[i]);
                } else if i < pos {
                    assert(nidx[i] == old_idx[i]);
                    assert(nidx[j] == old_idx[j - 1]);
                    assert(nr[i] == old_r[i]);
                    assert(nr[j] == old_r[j - 1]);
                } else if i == pos {
                    assert(nr[j] == old_r[j - 1]);
                    assert(pos < old_r.len());
                    if in_order(t, old_r[j - 1], x@) {
                        if j - 1 > pos {
                            lemma_order_trans(t, old_r[pos as int], old_r[j - 1], x@);
                        }
                    }
                } else {
                    assert(nidx[i] == old_idx[i - 1]);
                    assert(nidx[j] == old_idx[j - 1]);
                    assert(nr[i] == old_r[i - 1]);
                    assert(nr[j] == old_r[j - 1]);
                }
            }
            idx = nidx;
        }
    }
    proof {
        assert(dir_views(rest@) =~= Seq::<DirEntryView>::empty());
        assert(dir_views(rest@).to_multiset() =~= Multiset::empty());
        assert(dir_views(r@).to_multiset() =~= dir_views(r@).to_multiset().add(dir_views(rest@).to_multiset()));
        assert(stable_arrangement(t, all, dir_views(r@), idx));
    }
    r
}

/// The entries with their paints and selection flags, sorted; entries
/// that sort alike keep their order.
pub fn into_sorted_direntries(
    entries: Vec<Entry>,
    paint_settings: &PaintSettings,
    sorting_type: &SortingType,
    selected: &Vec<FsPath>,
    parent_path: Option<&FsPath>,
) -> (r: Vec<DirEntry>)
    ensures
        sorted_by(*sorting_type, dir_views(r@)),
        dir_views(r@).to_multiset() == dir_entries_of(
            views_of(entries@),
            *paint_settings,
            selected@,
            opt_path(parent_path),
        ).to_multiset(),
        *sorting_type == SortingType::Any ==> dir_views(r@) == dir_entries_of(
            views_of(entries@),
            *paint_settings,
            selected@,
            opt_path(parent_path),
        ),        exists|idx: Seq<int>| stable_arrangement(*sorting_type, dir_entries_of(
            views_of(entries@),
            *paint_settings,
            selected@,
            opt_path(parent_path),
        ), dir_views(r@), idx),
{
    let entries = into_direntries(entries, paint_settings, selected, parent_path);
    sort(entries, sorting_type)
}

/// The path of the `n`-th entry inside `path`, if there is one.
pub fn path_of_nth_entry_inside(n: usize, path: &FsPath, entries: &Vec<DirEntry>) -> (r: Option<FsPath>)
    ensures
        n < entries@.len() ==> r is Some && r->0@ == path@.push(entries@[n as int].name@),
        n >= entries@.len() ==> r is None,
{
    match nth_entry_inside(n, entries) {
        Some(entry) => Some(path.join(entry.name.as_str())),
        None => None,
    }
}

/// The `n`-th entry, if there is one.
pub fn nth_entry_inside(n: usize, entries: &Vec<DirEntry>) -> (r: Option<&DirEntry>)
    ensures
        n < entries@.len() ==> r == Some(&entries@[n as int]),
        n >= entries@.len() ==> r is None,
{
    if entries.len() == 0 {
        return None;
    }
    if n >= entries.len() {
        return None;
    }
    Some(&entries[n])
}

/// Where the entry that `path` names stands among `entries`: the first
/// entry with its name, or `0` for the root.
pub fn index_of_entry_inside(path: &FsPath, entries: &Vec<DirEntry>) -> (r: Option<usize>)
    ensures
        path@.len() == 0 ==> r == Some(0usize),
        path@.len() > 0 ==> match r {
            Some(i) => i < entries@.len() && entries@[i as int].name@ == path@.last() && forall|j: int|
                0 <= j < i ==> entries@[j].name@ != path@.last(),
            None => forall|j: int| 0 <= j < entries@.len() ==> entries@[j].name@ != path@.last(),
        },
{
    if path.parts.len() == 0 {
        return Some(0);
    }
    assert(path@.len() > 0);
    let sought = &path.parts[path.parts.len() - 1];
    let mut i: usize = 0;
    while i < entries.len()
        invariant
            path@.len() > 0,
            sought@ == path@.last(),
            i <= entries@.len(),
            forall|j: int| 0 <= j < i ==> entries@[j].name@ != path@.last(),
        decreases entries@.len() - i,
    {
        if entries[i].name == *sought {
            return Some(i);
        }
        i = i + 1;
    }
    None
}

/// The permissions of an entry, written out.
pub fn string_permissions_for_entry(entry: &Option<&DirEntry>) -> (r: Option<String>)
    requires
        entry is Some ==> permissions_valid(entry->0.permissions),
    ensures
        entry is None ==> r is None,
        entry is Some ==> r is Some && r->0@ == permissions_text(entry->0.permissions),
{
    if let Some(entry) = entry {
        Some(entry.permissions.string_representation())
    } else {
        None
    }
}

} // verus!
