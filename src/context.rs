//! One tab's view of the filesystem: the parent and current directories,
//! the cursor in each, their scroll offsets, the third column, and the
//! text-entry mode.
use vstd::prelude::*;
use crate::coloring::PaintSettings;
use crate::direntry::{
    DirEntry, DirEntryView, dir_views, duplicate_all, get_additional_entry_info, index_of_entry_inside,
    into_sorted_direntries, path_of_nth_entry_inside, string_permissions_for_entry, sorted_by,
};
use crate::drawing::DisplaySettings;
use crate::entry::{Entry, permissions_valid, permissions_text, select_listing, collect_siblings_of, human_size, HUMAN_SIZE_LIMIT};
use crate::input::SortingType;
use crate::input_mode::{
    InputMode, SearchTools, ChangeNameTools, CommandTools, filtered, valid_input, alphanumeric, typeable_symbol,
    insert_char_at, remove_char_at, without_last, retain_matching, collect_entries_that_match,
};
use crate::path::{FsPath, is_root, maybe_parent};
use crate::right_column::{RightColumn, RightListing};
use crate::shift::{siblings_shift_for, shift_of};
use crate::text::{copy_of, append_str, push_char, chars_amount};

verus! {

pub struct Context {
    pub current_siblings: Vec<DirEntry>,
    pub parent_siblings: Vec<DirEntry>,
    pub right_column: RightColumn,
    pub current_path: Option<FsPath>,
    pub parent_path: FsPath,
    pub parent_index: usize,
    pub current_index: usize,
    pub parent_siblings_shift: usize,
    pub current_siblings_shift: usize,
    pub current_permissions: Option<String>,
    pub additional_entry_info: Option<String>,
    pub cumulative_size_text: Option<String>,
    pub input_mode: Option<InputMode>,
}

/// What was read from the filesystem for one entry: its path, the third
/// column's content, where a symbolic link points, and the size.
pub struct EntryDetails {
    pub path: FsPath,
    pub right: RightListing,
    pub symlink_target: Option<String>,
    pub size: Option<u64>,
}

/// What the caller must carry out after a text entry is confirmed.
pub enum InputAction {
    Rename { path: FsPath, new_name: String },
    Execute { directory: FsPath, text: String },
}

pub open spec fn input_mode_wf(m: Option<InputMode>) -> bool {
    match m {
        Some(InputMode::Search(t)) => match t.cursor_index {
            Some(c) => c == t.query@.len(),
            None => true,
        },
        Some(InputMode::ChangeName(t)) => t.cursor_index <= t.new_name@.len(),
        Some(InputMode::Command(t)) => t.cursor_index <= t.text@.len(),
        None => true,
    }
}

/// The permissions shown for the entry under the cursor; bits that do not
/// fit a permission digit are not shown.
pub open spec fn shown_permissions(e: Option<DirEntryView>) -> Option<Seq<char>> {
    match e {
        Some(v) => if permissions_valid(v.permissions) {
            Some(permissions_text(v.permissions))
        } else {
            None
        },
        None => None,
    }
}

pub open spec fn index_after_up(len: nat, i: nat) -> nat {
    if len > 0 && i > 0 { (i - 1) as nat } else { i }
}

pub open spec fn index_after_down(len: nat, i: nat) -> nat {
    if len > 0 && i + 1 < len { i + 1 } else { i }
}

/// The path of the `i`-th entry of a directory.
pub open spec fn path_at(parent: Seq<Seq<char>>, siblings: Seq<DirEntry>, i: int) -> Seq<Seq<char>> {
    parent.push(siblings[i].name@)
}

/// Moving up then down, or down then up, from an entry that has a
/// neighbour on the side moved to returns to the same entry and path.
pub proof fn lemma_up_down_round_trip(parent: Seq<Seq<char>>, siblings: Seq<DirEntry>, i: nat)
    requires
        i < siblings.len(),
    ensures
        i > 0 ==> index_after_down(siblings.len(), index_after_up(siblings.len(), i)) == i,
        i + 1 < siblings.len() ==> index_after_up(siblings.len(), index_after_down(siblings.len(), i)) == i,
        i > 0 ==> path_at(parent, siblings, index_after_down(siblings.len(), index_after_up(siblings.len(), i)) as int)
            == path_at(parent, siblings, i as int),
        i + 1 < siblings.len() ==> path_at(parent, siblings, index_after_up(siblings.len(), index_after_down(siblings.len(), i)) as int)
            == path_at(parent, siblings, i as int),
{
}

fn permissions_for(entry: Option<&DirEntry>) -> (r: Option<String>)
    ensures
        crate::direntry::opt_text(r) == shown_permissions(crate::direntry::opt_view(entry)),
{
    match entry {
        Some(e) => {
            if e.permissions.owner < 8 && e.permissions.group < 8 && e.permissions.world < 8 {
                string_permissions_for_entry(&Some(e))
            } else {
                None
            }
        },
        None => None,
    }
}

impl Context {
    /// The cursor and the current path describe the same entry.
    pub open spec fn wf(&self) -> bool {
        &&& self.current_siblings@.len() > 0 ==> {
            &&& self.current_index < self.current_siblings@.len()
            &&& self.current_path is Some
            &&& self.current_path->0@ == path_at(self.parent_path@, self.current_siblings@, self.current_index as int)
        }
        &&& self.current_siblings@.len() == 0 ==> self.current_path is None && self.current_index == 0
        &&& input_mode_wf(self.input_mode)
    }

    pub open spec fn current_entry_view(&self) -> Option<DirEntryView> {
        if self.current_siblings@.len() > 0 && self.current_index < self.current_siblings@.len() {
            Some(self.current_siblings@[self.current_index as int]@)
        } else {
            None
        }
    }

    /// The entry under the cursor, if the directory is not empty.
    pub fn current_entry_ref(&self) -> (r: Option<&DirEntry>)
        requires
            self.wf(),
        ensures
            crate::direntry::opt_view(r) == self.current_entry_view(),
            self.current_siblings@.len() > 0 ==> r == Some(&self.current_siblings@[self.current_index as int]),
    {
        if self.current_path.is_some() {
            Some(&self.current_siblings[self.current_index])
        } else {
            None
        }
    }

    /// Whether the current directory is empty.
    pub fn inside_empty_dir(&self) -> (r: bool)
        requires
            self.wf(),
        ensures
            r == (self.current_siblings@.len() == 0),
    {
        self.current_path.is_none()
    }

    /// Points the current path and the fields that follow from the entry
    /// under the cursor at the entry at `current_index`, keeping the
    /// scroll window where the gap allows.
    fn update_current_entry_by_index(&mut self, display: &DisplaySettings)
        requires
            display.wf(),
            old(self).current_index < old(self).current_siblings@.len(),
            input_mode_wf(old(self).input_mode),
        ensures
            final(self).wf(),
            final(self).current_siblings == old(self).current_siblings,
            final(self).parent_path == old(self).parent_path,
            final(self).current_index == old(self).current_index,
            final(self).input_mode == old(self).input_mode,
            final(self).cumulative_size_text is None,
            final(self).right_column is Empty,
            final(self).additional_entry_info is None,
            crate::direntry::opt_text(final(self).current_permissions) == shown_permissions(final(self).current_entry_view()),
            final(self).current_siblings_shift == shift_of(
                display.scrolling_gap as int,
                display.column_effective_height as int,
                old(self).current_index as int,
                old(self).current_siblings@.len() as int,
                Some(old(self).current_siblings_shift as int),
            ),
            final(self).parent_siblings == old(self).parent_siblings,
            final(self).parent_index == old(self).parent_index,
            final(self).parent_siblings_shift == old(self).parent_siblings_shift,
    {
        self.cumulative_size_text = None;
        self.right_column = RightColumn::empty();
        self.additional_entry_info = None;
        self.current_path = path_of_nth_entry_inside(self.current_index, &self.parent_path, &self.current_siblings);
        self.current_permissions = permissions_for(Some(&self.current_siblings[self.current_index]));
        self.current_siblings_shift = siblings_shift_for(
            display.scrolling_gap,
            display.column_effective_height,
            self.current_index,
            self.current_siblings.len(),
            Some(self.current_siblings_shift),
        );
    }

    /// Moves the cursor one entry up; nothing happens at the top or in an
    /// empty directory.
    pub fn up(&mut self, display: &DisplaySettings)
        requires
            old(self).wf(),
            display.wf(),
        ensures
            Context::moved_up(*old(self), *final(self), display),
    {
        if self.inside_empty_dir() {
            return;
        }
        if self.current_index > 0 {
            self.current_index = self.current_index - 1;
            self.update_current_entry_by_index(display);
        }
    }

    /// Moves the cursor one entry down; nothing happens at the bottom or in
    /// an empty directory.
    pub fn down(&mut self, display: &DisplaySettings)
        requires
            old(self).wf(),
            display.wf(),
        ensures
            Context::moved_down(*old(self), *final(self), display),
    {
        if self.inside_empty_dir() {
            return;
        }
        if self.current_index < self.current_siblings.len() - 1 {
            self.current_index = self.current_index + 1;
            self.update_current_entry_by_index(display);
        }
    }

    /// Moves the cursor to the first entry.
    pub fn go_home(&mut self, display: &DisplaySettings)
        requires
            old(self).wf(),
            display.wf(),
        ensures
            Context::moved_home(*old(self), *final(self), display),
    {
        if self.inside_empty_dir() {
            return;
        }
        self.current_index = 0;
        self.update_current_entry_by_index(display);
    }

    /// Moves the cursor to the last entry.
    pub fn go_end(&mut self, display: &DisplaySettings)
        requires
            old(self).wf(),
            display.wf(),
        ensures
            Context::moved_end(*old(self), *final(self), display),
    {
        if self.inside_empty_dir() {
            return;
        }
        self.current_index = self.current_siblings.len() - 1;
        self.update_current_entry_by_index(display);
    }
}

/// A listing as a column holds it: the shown entries with paints and
/// selection flags, sorted the given way, entries that sort alike in
/// listing order.
pub open spec fn fresh_listing(
    r: Seq<DirEntryView>,
    listing: Seq<crate::entry::EntryView>,
    settings: PaintSettings,
    sorting_type: SortingType,
    include_hidden: bool,
    selected: Seq<FsPath>,
    parent: Option<Seq<Seq<char>>>,
) -> bool {
    let expected = crate::direntry::dir_entries_of(
        crate::entry::listing_of(listing, None, include_hidden),
        settings,
        selected,
        parent,
    );
    &&& sorted_by(sorting_type, r)
    &&& r.to_multiset() == expected.to_multiset()
    &&& sorting_type == SortingType::Any ==> r == expected
    &&& exists|idx: Seq<int>| crate::direntry::stable_arrangement(sorting_type, expected, r, idx)
}

/// Reads a raw listing into a column.
fn column_of(
    listing: Vec<Entry>,
    paint_settings: &PaintSettings,
    sorting_type: &SortingType,
    include_hidden: bool,
    selected: &Vec<FsPath>,
    parent: Option<&FsPath>,
) -> (r: Vec<DirEntry>)
    ensures
        fresh_listing(dir_views(r@), crate::entry::views_of(listing@), *paint_settings, *sorting_type, include_hidden,
            selected@, crate::direntry::opt_path(parent)),
{
    let shown = select_listing(listing, None, include_hidden);
    into_sorted_direntries(shown, paint_settings, sorting_type, selected, parent)
}

pub open spec fn clamped(len: nat, i: nat) -> nat {
    if len == 0 { 0 } else if i >= len { (len - 1) as nat } else { i }
}

/// The width of the third column, or zero where the layout has none.
pub open spec fn right_width(display: &DisplaySettings) -> usize {
    if display.columns_coord@.len() > 2 && display.columns_coord@[2].0 <= display.columns_coord@[2].1 {
        (display.columns_coord@[2].1 - display.columns_coord@[2].0) as usize
    } else {
        0
    }
}

/// The width of the third column, or zero where the layout has none.
fn right_column_width(display: &DisplaySettings) -> (r: usize)
    ensures
        r == right_width(display),
{
    if display.columns_coord.len() > 2 {
        let (begin, end) = display.columns_coord[2];
        if begin <= end {
            return (end as i64 - begin as i64) as usize;
        }
    }
    0
}

impl Context {
    /// A fresh context for `parent_path`, from the raw listings of that
    /// directory and of its own parent, and what was read for the entry
    /// that lands under the cursor: the cursor on the first entry, the
    /// parent column's cursor on `parent_path` itself, and the scroll
    /// windows placed afresh.
    pub fn generate(
        parent_path: FsPath,
        children: Vec<Entry>,
        parent_listing: Vec<Entry>,
        details: EntryDetails,
        display_settings: &DisplaySettings,
        paint_settings: &PaintSettings,
        sorting_type: &SortingType,
        include_hidden: bool,
        selected: &Vec<FsPath>,
    ) -> (r: Context)
        requires
            display_settings.wf(),
        ensures
            r.wf(),
            r.parent_path@ == parent_path@,
            r.current_index == 0,
            r.input_mode is None,
            r.cumulative_size_text is None,
            landing_shown(r, details, display_settings, paint_settings, sorting_type, include_hidden, selected),
            fresh_listing(dir_views(r.current_siblings@), crate::entry::views_of(children@), *paint_settings,
                *sorting_type, include_hidden, selected@, Some(parent_path@)),
            parent_path@.len() > 0 ==> fresh_listing(dir_views(r.parent_siblings@), crate::entry::views_of(parent_listing@),
                *paint_settings, *sorting_type, include_hidden, selected@, Some(parent_path@.drop_last())),
            parent_path@.len() == 0 ==> fresh_listing(dir_views(r.parent_siblings@), seq![crate::entry::root_entry()],
                *paint_settings, *sorting_type, include_hidden, selected@, None),
            parent_path@.len() == 0 ==> r.parent_index == 0,
            parent_path@.len() > 0 && (exists|k: int| 0 <= k < r.parent_siblings@.len()
                && #[trigger] r.parent_siblings@[k].name@ == parent_path@.last())
                ==> r.parent_index < r.parent_siblings@.len() && r.parent_siblings@[r.parent_index as int].name@
                == parent_path@.last(),
            crate::direntry::opt_text(r.current_permissions) == shown_permissions(r.current_entry_view()),
            r.current_siblings_shift == shift_of(display_settings.scrolling_gap as int,
                display_settings.column_effective_height as int, 0, r.current_siblings@.len() as int, None),
            r.parent_siblings_shift == shift_of(display_settings.scrolling_gap as int,
                display_settings.column_effective_height as int, r.parent_index as int, r.parent_siblings@.len() as int, None),
    {
        let current_siblings = column_of(children, paint_settings, sorting_type, include_hidden, selected, Some(&parent_path));
        let parent_siblings = if is_root(&parent_path) {
            column_of(collect_siblings_of(&parent_path, Vec::new(), include_hidden), paint_settings, sorting_type,
                include_hidden, selected, None)
        } else {
            let grandparent = maybe_parent(&parent_path);
            column_of(parent_listing, paint_settings, sorting_type, include_hidden, selected, grandparent.as_ref())
        };
        let current_path = path_of_nth_entry_inside(0, &parent_path, &current_siblings);
        let parent_index = match index_of_entry_inside(&parent_path, &parent_siblings) {
            Some(i) => i,
            None => 0,
        };
        let current_permissions = permissions_for(if current_siblings.len() > 0 { Some(&current_siblings[0]) } else { None });
        let parent_siblings_shift = siblings_shift_for(
            display_settings.scrolling_gap, display_settings.column_effective_height,
            parent_index, parent_siblings.len(), None,
        );
        let current_siblings_shift = siblings_shift_for(
            display_settings.scrolling_gap, display_settings.column_effective_height,
            0, current_siblings.len(), None,
        );
        let mut ctx = Context {
            current_siblings,
            parent_siblings,
            right_column: RightColumn::empty(),
            current_path,
            parent_path,
            parent_index,
            current_index: 0,
            parent_siblings_shift,
            current_siblings_shift,
            current_permissions,
            additional_entry_info: None,
            cumulative_size_text: None,
            input_mode: None,
        };
        ctx.take_details(details, display_settings, paint_settings, sorting_type, include_hidden, selected);
        ctx
    }

    /// Takes in what was read for the entry under the cursor: the third
    /// column, the target of a symbolic link, and the entry's size. Details
    /// read for another path leave the third column empty.
    pub fn apply_details(
        &mut self,
        details: EntryDetails,
        display: &DisplaySettings,
        paint_settings: &PaintSettings,
        sorting_type: &SortingType,
        include_hidden: bool,
        selected: &Vec<FsPath>,
    )
        requires
            old(self).wf(),
        ensures
            Context::details_applied(*old(self), *final(self), details, display, paint_settings, sorting_type, include_hidden, selected),
    {
        let size = details.size;
        let hit = self.details_match_exec(&details);
        self.take_details(details, display, paint_settings, sorting_type, include_hidden, selected);
        if hit {
            if let Some(size) = size {
                let i = self.current_index;
                let mut e = self.current_siblings.remove(i);
                e.size = size;
                self.current_siblings.insert(i, e);
            }
        }
    }

    /// Puts the cursor back inside the current list (on the same index
    /// where it still exists, else on the last entry) and points the
    /// current path and the fields that follow from it there.
    pub fn update_current_without_siblings(&mut self, display: &DisplaySettings)
        requires
            input_mode_wf(old(self).input_mode),
            display.wf(),
        ensures
            Context::cursor_settled(*old(self), *final(self), display),
    {
        let len = self.current_siblings.len();
        if len == 0 {
            self.current_index = 0;
        } else if self.current_index >= len {
            self.current_index = len - 1;
        }
        self.current_path = path_of_nth_entry_inside(self.current_index, &self.parent_path, &self.current_siblings);
        self.current_permissions = permissions_for(self.current_entry_ref());
        self.current_siblings_shift = siblings_shift_for(
            display.scrolling_gap,
            display.column_effective_height,
            self.current_index,
            self.current_siblings.len(),
            Some(self.current_siblings_shift),
        );
    }

    /// Re-reads the current directory from its raw listing: with a search
    /// on, the fresh listing becomes the unfiltered list and the column
    /// shows its matches; the cursor stays on its index where it can.
    pub fn update_current(
        &mut self,
        listing: Vec<Entry>,
        display: &DisplaySettings,
        paint_settings: &PaintSettings,
        sorting_type: &SortingType,
        include_hidden: bool,
        selected: &Vec<FsPath>,
    )
        requires
            input_mode_wf(old(self).input_mode),
            display.wf(),
        ensures
            Context::current_reread(*old(self), *final(self), listing, display, paint_settings, sorting_type, include_hidden, selected),
    {
        let new_siblings = column_of(listing, paint_settings, sorting_type, include_hidden, selected, Some(&self.parent_path));
        let mode = self.input_mode.take();
        match mode {
            Some(InputMode::Search(tools)) => {
                self.current_siblings = collect_entries_that_match(&new_siblings, tools.query.as_str());
                self.input_mode = Some(InputMode::Search(SearchTools {
                    query: tools.query,
                    cursor_index: tools.cursor_index,
                    current_siblings_backup: new_siblings,
                }));
            },
            other => {
                self.input_mode = other;
                self.current_siblings = new_siblings;
            },
        }
        self.update_current_without_siblings(display);
    }

    /// Settles the cursor after both lists were re-read: on the entry named
    /// like `path` if the current list has one, else on the first entry.
    fn place_cursor_on(&mut self, path: FsPath, display: &DisplaySettings)
        requires
            input_mode_wf(old(self).input_mode),
            display.wf(),
            path@.len() > 0,
            path@.drop_last() == old(self).parent_path@,
        ensures
            final(self).wf(),
            final(self).current_siblings == old(self).current_siblings,
            final(self).parent_siblings == old(self).parent_siblings,
            final(self).parent_path == old(self).parent_path,
            final(self).input_mode == old(self).input_mode,
            final(self).current_siblings_shift == old(self).current_siblings_shift,
            final(self).parent_siblings_shift == old(self).parent_siblings_shift,
            final(self).parent_index == old(self).parent_index,
            final(self).cumulative_size_text == old(self).cumulative_size_text,
            final(self).right_column == old(self).right_column,
            (exists|k: int| 0 <= k < old(self).current_siblings@.len() && old(self).current_siblings@[k].name@ == path@.last())
                ==> final(self).current_path == Some(path) && final(self).current_siblings@[final(self).current_index as int].name@ == path@.last(),
            crate::direntry::opt_text(final(self).current_permissions) == shown_permissions(final(self).current_entry_view()),
    {
        match index_of_entry_inside(&path, &self.current_siblings) {
            Some(i) => {
                proof {
                    assert(path@ =~= self.parent_path@.push(path@.last()));
                }
                self.current_index = i;
                self.current_path = Some(path);
            },
            None => {
                self.current_index = 0;
                self.current_path = path_of_nth_entry_inside(0, &self.parent_path, &self.current_siblings);
            },
        }
        self.current_permissions = permissions_for(self.current_entry_ref());
    }

    /// Moves into the parent directory, given the raw listings of the new
    /// parent and of its own parent, and what was read for the entry that
    /// lands under the cursor; nothing happens at the root. The
    /// cursor lands on the directory just left, the current column keeps
    /// the scroll offset that the parent column had, and any text entry
    /// ends.
    pub fn left(
        &mut self,
        children: Vec<Entry>,
        parent_listing: Vec<Entry>,
        details: EntryDetails,
        display: &DisplaySettings,
        paint_settings: &PaintSettings,
        sorting_type: &SortingType,
        include_hidden: bool,
        selected: &Vec<FsPath>,
    )
        requires
            old(self).wf(),
            display.wf(),
        ensures
            Context::moved_left(*old(self), *final(self), children, parent_listing, details, display, paint_settings, sorting_type, include_hidden, selected),
    {
        if is_root(&self.parent_path) {
            return;
        }
        let old_parent = self.parent_path.duplicate();
        let new_parent = match maybe_parent(&self.parent_path) {
            Some(p) => p,
            None => FsPath::root(),
        };
        let grandparent = maybe_parent(&new_parent);
        self.current_siblings = column_of(children, paint_settings, sorting_type, include_hidden, selected, Some(&new_parent));
        self.parent_siblings = column_of(
            collect_siblings_of(&new_parent, parent_listing, include_hidden),
            paint_settings, sorting_type, include_hidden, selected, grandparent.as_ref(),
        );
        self.parent_path = new_parent;
        self.cumulative_size_text = None;
        self.right_column = RightColumn::empty();
        self.additional_entry_info = None;
        self.input_mode = None;
        self.current_siblings_shift = self.parent_siblings_shift;
        self.parent_index = match index_of_entry_inside(&self.parent_path, &self.parent_siblings) {
            Some(i) => i,
            None => 0,
        };
        self.parent_siblings_shift = siblings_shift_for(
            display.scrolling_gap, display.column_effective_height,
            self.parent_index, self.parent_siblings.len(), None,
        );
        self.place_cursor_on(old_parent, display);
        self.take_details(details, display, paint_settings, sorting_type, include_hidden, selected);
    }

    /// Moves into the directory under the cursor, given the raw listings of
    /// that directory and of the current one, and what was read for the
    /// entry that lands under the cursor; nothing happens in an empty
    /// directory. The cursor lands on the first entry, the parent column
    /// keeps the offset that the current column had, and any text entry
    /// ends.
    pub fn right(
        &mut self,
        children: Vec<Entry>,
        parent_listing: Vec<Entry>,
        details: EntryDetails,
        display: &DisplaySettings,
        paint_settings: &PaintSettings,
        sorting_type: &SortingType,
        include_hidden: bool,
        selected: &Vec<FsPath>,
    )
        requires
            old(self).wf(),
            display.wf(),
        ensures
            Context::moved_right(*old(self), *final(self), children, parent_listing, details, display, paint_settings, sorting_type, include_hidden, selected),
    {
        let new_parent = match &self.current_path {
            Some(p) => p.duplicate(),
            None => {
                return;
            },
        };
        let grandparent = maybe_parent(&new_parent);
        self.current_siblings = column_of(children, paint_settings, sorting_type, include_hidden, selected, Some(&new_parent));
        self.parent_siblings = column_of(
            collect_siblings_of(&new_parent, parent_listing, include_hidden),
            paint_settings, sorting_type, include_hidden, selected, grandparent.as_ref(),
        );
        self.parent_path = new_parent;
        self.parent_index = self.current_index;
        self.current_index = 0;
        self.parent_siblings_shift = self.current_siblings_shift;
        self.current_siblings_shift = 0;
        self.current_path = path_of_nth_entry_inside(0, &self.parent_path, &self.current_siblings);
        self.current_permissions = permissions_for(self.current_entry_ref());
        self.cumulative_size_text = None;
        self.right_column = RightColumn::empty();
        self.additional_entry_info = None;
        self.input_mode = None;
        self.take_details(details, display, paint_settings, sorting_type, include_hidden, selected);
    }

    /// Shows the cumulative size of the entry under the cursor.
    pub fn set_cumulative_size(&mut self, size: u64)
        requires
            size < HUMAN_SIZE_LIMIT,
        ensures
            final(self).cumulative_size_text is Some,
            final(self).cumulative_size_text->0@ == "Size: "@ + crate::entry::human_size_text(size as nat),
            final(self).current_siblings == old(self).current_siblings,
            final(self).current_path == old(self).current_path,
            final(self).current_index == old(self).current_index,
            final(self).parent_path == old(self).parent_path,
            final(self).input_mode == old(self).input_mode,
    {
        let mut text = copy_of("Size: ");
        let h = human_size(size);
        append_str(&mut text, h.as_str());
        self.cumulative_size_text = Some(text);
    }
}

/// Whether details were read for the entry under the cursor.
pub open spec fn details_match(ctx: Context, details: EntryDetails) -> bool {
    ctx.current_path is Some && details.path@ == ctx.current_path->0@
}

/// The third column and the link line show what was read for the entry
/// under the cursor; details read for another path, or no entry, leave
/// them empty.
pub open spec fn landing_shown(
    ctx: Context,
    details: EntryDetails,
    display: &DisplaySettings,
    paint_settings: &PaintSettings,
    sorting_type: &SortingType,
    include_hidden: bool,
    selected: &Vec<FsPath>,
) -> bool {
    if details_match(ctx, details) {
        &&& crate::right_column::column_of_listing(
            details.right,
            ctx.right_column,
            details.path@,
            *paint_settings,
            *sorting_type,
            include_hidden,
            display.column_effective_height,
            right_width(display),
            selected@,
        )
        &&& crate::direntry::opt_text(ctx.additional_entry_info) == crate::direntry::additional_info(
            ctx.current_entry_view(),
            crate::direntry::opt_text(details.symlink_target),
        )
    } else {
        ctx.right_column is Empty && ctx.additional_entry_info is None
    }
}

fn duplicate_entries(v: &Vec<Entry>) -> (r: Vec<Entry>)
    ensures
        crate::entry::views_of(r@) == crate::entry::views_of(v@),
{
    let mut r: Vec<Entry> = Vec::new();
    let mut i: usize = 0;
    while i < v.len()
        invariant
            i <= v@.len(),
            crate::entry::views_of(r@) == crate::entry::views_of(v@).subrange(0, i as int),
        decreases v@.len() - i,
    {
        let ghost prev = r@;
        let e = v[i].duplicate();
        r.push(e);
        assert(crate::entry::views_of(r@) =~= crate::entry::views_of(prev).push(e@));
        i = i + 1;
        assert(crate::entry::views_of(r@) =~= crate::entry::views_of(v@).subrange(0, i as int));
    }
    assert(crate::entry::views_of(v@).subrange(0, i as int) =~= crate::entry::views_of(v@));
    r
}

impl Context {
    /// Whether the details were read for the entry under the cursor.
    fn details_match_exec(&self, details: &EntryDetails) -> (r: bool)
        ensures
            r == details_match(*self, *details),
    {
        match &self.current_path {
            Some(p) => p.same(&details.path),
            None => false,
        }
    }

    /// Shows what was read for the entry under the cursor in the third
    /// column and the link line.
    fn take_details(
        &mut self,
        details: EntryDetails,
        display: &DisplaySettings,
        paint_settings: &PaintSettings,
        sorting_type: &SortingType,
        include_hidden: bool,
        selected: &Vec<FsPath>,
    )
        requires
            old(self).wf(),
        ensures
            final(self).wf(),
            landing_shown(*final(self), details, display, paint_settings, sorting_type, include_hidden, selected),
            final(self).current_siblings == old(self).current_siblings,
            final(self).parent_siblings == old(self).parent_siblings,
            final(self).current_path == old(self).current_path,
            final(self).parent_path == old(self).parent_path,
            final(self).current_index == old(self).current_index,
            final(self).parent_index == old(self).parent_index,
            final(self).current_siblings_shift == old(self).current_siblings_shift,
            final(self).parent_siblings_shift == old(self).parent_siblings_shift,
            final(self).current_permissions == old(self).current_permissions,
            final(self).cumulative_size_text == old(self).cumulative_size_text,
            final(self).input_mode == old(self).input_mode,
    {
        if self.details_match_exec(&details) {
            let width = right_column_width(display);
            self.additional_entry_info = get_additional_entry_info(self.current_entry_ref(), &details.symlink_target);
            self.right_column = RightColumn::collect(
                details.right, &details.path, paint_settings, sorting_type, include_hidden,
                display.column_effective_height, width, selected,
            );
        } else {
            self.right_column = RightColumn::empty();
            self.additional_entry_info = None;
        }
    }

    /// The path of the entry that a fresh listing puts first, where the
    /// cursor lands when the directory is entered: what to read details for.
    pub fn first_entry_path(
        parent_path: &FsPath,
        children: &Vec<Entry>,
        paint_settings: &PaintSettings,
        sorting_type: &SortingType,
        include_hidden: bool,
        selected: &Vec<FsPath>,
    ) -> (r: Option<FsPath>)
        ensures
            exists|col: Seq<DirEntry>| {
                &&& fresh_listing(dir_views(col), crate::entry::views_of(children@), *paint_settings,
                    *sorting_type, include_hidden, selected@, Some(parent_path@))
                &&& col.len() == 0 ==> r is None
                &&& col.len() > 0 ==> r is Some && r->0@ == path_at(parent_path@, col, 0)
            },
    {
        let col = column_of(duplicate_entries(children), paint_settings, sorting_type, include_hidden, selected, Some(parent_path));
        let r = path_of_nth_entry_inside(0, parent_path, &col);
        assert(fresh_listing(dir_views(col@), crate::entry::views_of(children@), *paint_settings,
                    *sorting_type, include_hidden, selected@, Some(parent_path@)));
        r
    }
}

impl Context {
    /// Whether a search is on, edited or not.
    pub fn doing_search(&self) -> (r: bool)
        ensures
            r == (self.input_mode is Some && self.input_mode->0 is Search),
    {
        match &self.input_mode {
            Some(InputMode::Search(_)) => true,
            _ => false,
        }
    }

    /// Whether typed keys go into a text field: a search being edited, a
    /// new name, or a command line.
    pub fn inside_input_mode(&self) -> (r: bool)
        ensures
            r == match self.input_mode {
                Some(InputMode::Search(t)) => t.cursor_index is Some,
                Some(_) => true,
                None => false,
            },
    {
        match &self.input_mode {
            Some(InputMode::Search(tools)) => tools.cursor_index.is_some(),
            Some(InputMode::ChangeName(_)) => true,
            Some(InputMode::Command(_)) => true,
            None => false,
        }
    }

    /// Starts editing the search bar: a search already on is resumed with
    /// the cursor after its query; else the current list is kept aside
    /// unfiltered and an empty query starts.
    pub fn start_search(&mut self)
        requires
            old(self).wf(),
        ensures
            Context::search_started(*old(self), *final(self)),
    {
        let mode = self.input_mode.take();
        match mode {
            Some(InputMode::Search(tools)) => {
                let len = chars_amount(tools.query.as_str());
                self.input_mode = Some(InputMode::Search(SearchTools {
                    query: tools.query,
                    cursor_index: Some(len),
                    current_siblings_backup: tools.current_siblings_backup,
                }));
            },
            _ => {
                self.input_mode = Some(InputMode::Search(SearchTools {
                    query: String::new(),
                    cursor_index: Some(0),
                    current_siblings_backup: duplicate_all(&self.current_siblings),
                }));
            },
        }
    }

    /// Starts editing a new name for the entry under the cursor, with the
    /// old name as the text and the cursor after it; nothing happens in an
    /// empty directory.
    pub fn start_changing_current_name(&mut self)
        requires
            old(self).wf(),
        ensures
            Context::renaming_started(*old(self), *final(self)),
    {
        if self.inside_empty_dir() {
            return;
        }
        let old_name = copy_of(self.current_siblings[self.current_index].name.as_str());
        let len = chars_amount(old_name.as_str());
        self.input_mode = Some(InputMode::ChangeName(ChangeNameTools { new_name: old_name, cursor_index: len }));
    }

    /// Starts editing an empty command line.
    pub fn start_command(&mut self)
        requires
            old(self).wf(),
        ensures
            Context::command_started(*old(self), *final(self)),
    {
        self.input_mode = Some(InputMode::Command(CommandTools { text: String::new(), cursor_index: 0 }));
    }

    /// Ends any text entry; a search gives back the unfiltered list.
    pub fn reset_input_mode_and_restore(&mut self)
        requires
            input_mode_wf(old(self).input_mode),
        ensures
            final(self).input_mode is None,
            final(self).parent_path == old(self).parent_path,
            final(self).current_index == old(self).current_index,
            match old(self).input_mode {
                Some(InputMode::Search(t)) => final(self).current_siblings == t.current_siblings_backup,
                _ => final(self).current_siblings == old(self).current_siblings && final(self).current_path == old(self).current_path,
            },
    {
        let mode = self.input_mode.take();
        if let Some(InputMode::Search(tools)) = mode {
            self.current_siblings = tools.current_siblings_backup;
        }
    }

    /// Leaves text entry without effect: a search gives back the unfiltered
    /// list, and the cursor is settled on it.
    pub fn cancel_input(&mut self, display: &DisplaySettings)
        requires
            old(self).wf(),
            display.wf(),
        ensures
            Context::input_cancelled(*old(self), *final(self), display),
    {
        let was_doing_search = self.doing_search();
        self.reset_input_mode_and_restore();
        if was_doing_search {
            self.update_current_without_siblings(display);
        }
    }

    /// Confirms the text being entered. A search stops being edited and its
    /// filter stays; a new name or a command line ends the entry and comes
    /// back as what the caller must do.
    pub fn confirm_input(&mut self) -> (r: Option<InputAction>)
        requires
            old(self).wf(),
        ensures
            Context::input_confirmed(*old(self), *final(self), r),
    {
        let mode = self.input_mode.take();
        match mode {
            Some(InputMode::Search(tools)) => {
                self.input_mode = Some(InputMode::Search(SearchTools {
                    query: tools.query,
                    cursor_index: None,
                    current_siblings_backup: tools.current_siblings_backup,
                }));
                None
            },
            Some(InputMode::ChangeName(tools)) => match &self.current_path {
                Some(path) => Some(InputAction::Rename { path: path.duplicate(), new_name: tools.new_name }),
                None => None,
            },
            Some(InputMode::Command(tools)) => Some(InputAction::Execute {
                directory: self.parent_path.duplicate(),
                text: tools.text,
            }),
            None => None,
        }
    }

    /// Moves the text cursor one character left, if it can.
    pub fn move_input_cursor_left(&mut self)
        requires
            old(self).wf(),
        ensures
            Context::cursor_moved_left(*old(self), *final(self)),
    {
        match &mut self.input_mode {
            Some(InputMode::ChangeName(tools)) => {
                if tools.cursor_index >= 1 {
                    tools.cursor_index = tools.cursor_index - 1;
                }
            },
            Some(InputMode::Command(tools)) => {
                if tools.cursor_index >= 1 {
                    tools.cursor_index = tools.cursor_index - 1;
                }
            },
            _ => {},
        }
    }

    /// Moves the text cursor one character right, up to just after the
    /// last character.
    pub fn move_input_cursor_right(&mut self)
        requires
            old(self).wf(),
        ensures
            Context::cursor_moved_right(*old(self), *final(self)),
    {
        match &mut self.input_mode {
            Some(InputMode::ChangeName(tools)) => {
                if tools.cursor_index < chars_amount(tools.new_name.as_str()) {
                    tools.cursor_index = tools.cursor_index + 1;
                }
            },
            Some(InputMode::Command(tools)) => {
                if tools.cursor_index < chars_amount(tools.text.as_str()) {
                    tools.cursor_index = tools.cursor_index + 1;
                }
            },
            _ => {},
        }
    }

    /// Types a character: characters that may not be typed are ignored; in
    /// a search it joins the query and the column keeps only its matches;
    /// in a name or a command line it goes in at the cursor.
    pub fn insert_input(&mut self, c: char, display: &DisplaySettings)
        requires
            old(self).wf(),
            display.wf(),
        ensures
            Context::input_inserted(*old(self), *final(self), c, display),
    {
        if !valid_input(c) {
            return;
        }
        let mode = self.input_mode.take();
        match mode {
            Some(InputMode::Search(tools)) => {
                let mut query = tools.query;
                push_char(&mut query, c);
                let cursor_index = match tools.cursor_index {
                    Some(_) => Some(chars_amount(query.as_str())),
                    None => None,
                };
                let mut current: Vec<DirEntry> = Vec::new();
                std::mem::swap(&mut current, &mut self.current_siblings);
                self.current_siblings = retain_matching(current, query.as_str());
                self.input_mode = Some(InputMode::Search(SearchTools {
                    query,
                    cursor_index,
                    current_siblings_backup: tools.current_siblings_backup,
                }));
                self.update_current_without_siblings(display);
            },
            Some(InputMode::ChangeName(tools)) => {
                let new_name = insert_char_at(&tools.new_name, tools.cursor_index, c);
                let n = chars_amount(new_name.as_str());
                assert(tools.cursor_index + 1 <= n);
                self.input_mode = Some(InputMode::ChangeName(ChangeNameTools { new_name, cursor_index: tools.cursor_index + 1 }));
            },
            Some(InputMode::Command(tools)) => {
                let text = insert_char_at(&tools.text, tools.cursor_index, c);
                let n = chars_amount(text.as_str());
                assert(tools.cursor_index + 1 <= n);
                self.input_mode = Some(InputMode::Command(CommandTools { text, cursor_index: tools.cursor_index + 1 }));
            },
            None => {},
        }
    }

    /// Erases the character before the cursor: in a search the last
    /// character of the query, after which the column shows the matches
    /// of the unfiltered list again.
    pub fn remove_input_before_cursor(&mut self, display: &DisplaySettings)
        requires
            old(self).wf(),
            display.wf(),
        ensures
            Context::input_removed_before(*old(self), *final(self), display),
    {
        let mode = self.input_mode.take();
        match mode {
            Some(InputMode::Search(tools)) => {
                if chars_amount(tools.query.as_str()) > 0 {
                    let query = without_last(&tools.query);
                    let cursor_index = match tools.cursor_index {
                        Some(_) => Some(chars_amount(query.as_str())),
                        None => None,
                    };
                    self.current_siblings = collect_entries_that_match(&tools.current_siblings_backup, query.as_str());
                    self.input_mode = Some(InputMode::Search(SearchTools {
                        query,
                        cursor_index,
                        current_siblings_backup: tools.current_siblings_backup,
                    }));
                    self.update_current_without_siblings(display);
                } else {
                    self.input_mode = Some(InputMode::Search(tools));
                }
            },
            Some(InputMode::ChangeName(tools)) => {
                if tools.cursor_index > 0 {
                    let new_name = remove_char_at(&tools.new_name, tools.cursor_index - 1);
                    self.input_mode = Some(InputMode::ChangeName(ChangeNameTools { new_name, cursor_index: tools.cursor_index - 1 }));
                } else {
                    self.input_mode = Some(InputMode::ChangeName(tools));
                }
            },
            Some(InputMode::Command(tools)) => {
                if tools.cursor_index > 0 {
                    let text = remove_char_at(&tools.text, tools.cursor_index - 1);
                    self.input_mode = Some(InputMode::Command(CommandTools { text, cursor_index: tools.cursor_index - 1 }));
                } else {
                    self.input_mode = Some(InputMode::Command(tools));
                }
            },
            None => {},
        }
    }

    /// Erases the character under the cursor of a name or a command line;
    /// with the cursor after the last character nothing happens.
    pub fn remove_input_under_cursor(&mut self)
        requires
            old(self).wf(),
        ensures
            Context::input_removed_under(*old(self), *final(self)),
    {
        let mode = self.input_mode.take();
        match mode {
            Some(InputMode::ChangeName(tools)) => {
                let new_name = if tools.cursor_index < chars_amount(tools.new_name.as_str()) {
                    remove_char_at(&tools.new_name, tools.cursor_index)
                } else {
                    tools.new_name
                };
                self.input_mode = Some(InputMode::ChangeName(ChangeNameTools { new_name, cursor_index: tools.cursor_index }));
            },
            Some(InputMode::Command(tools)) => {
                let text = if tools.cursor_index < chars_amount(tools.text.as_str()) {
                    remove_char_at(&tools.text, tools.cursor_index)
                } else {
                    tools.text
                };
                self.input_mode = Some(InputMode::Command(CommandTools { text, cursor_index: tools.cursor_index }));
            },
            other => {
                self.input_mode = other;
            },
        }
    }
}

fn copy_opt_text(o: &Option<String>) -> (r: Option<String>)
    ensures
        crate::direntry::opt_text(r) == crate::direntry::opt_text(*o),
{
    match o {
        Some(t) => Some(copy_of(t.as_str())),
        None => None,
    }
}

fn copy_lines(v: &Vec<String>) -> (r: Vec<String>)
    ensures
        r@.len() == v@.len(),
        forall|k: int| 0 <= k < v@.len() ==> r@[k]@ == v@[k]@,
{
    let mut r: Vec<String> = Vec::new();
    let mut i: usize = 0;
    while i < v.len()
        invariant
            i <= v@.len(),
            r@.len() == i,
            forall|k: int| 0 <= k < i ==> r@[k]@ == v@[k]@,
        decreases v@.len() - i,
    {
        r.push(copy_of(v[i].as_str()));
        i = i + 1;
    }
    r
}

/// Two lists of texts with the same characters, item by item.
pub open spec fn same_texts(a: Seq<String>, b: Seq<String>) -> bool {
    a.len() == b.len() && forall|k: int| 0 <= k < a.len() ==> (#[trigger] a[k])@ == b[k]@
}

/// Two third columns that show the same.
pub open spec fn same_column(a: RightColumn, b: RightColumn) -> bool {
    match (a, b) {
        (RightColumn::Siblings(x), RightColumn::Siblings(y)) => dir_views(x@) == dir_views(y@),
        (RightColumn::Preview(x), RightColumn::Preview(y)) => same_texts(x@, y@),
        (RightColumn::Empty, RightColumn::Empty) => true,
        _ => false,
    }
}

/// Two text-entry modes in the same state.
pub open spec fn same_mode(a: InputMode, b: InputMode) -> bool {
    match (a, b) {
        (InputMode::Search(x), InputMode::Search(y)) => x.query@ == y.query@ && x.cursor_index == y.cursor_index
            && dir_views(x.current_siblings_backup@) == dir_views(y.current_siblings_backup@),
        (InputMode::ChangeName(x), InputMode::ChangeName(y)) => x.new_name@ == y.new_name@
            && x.cursor_index == y.cursor_index,
        (InputMode::Command(x), InputMode::Command(y)) => x.text@ == y.text@ && x.cursor_index == y.cursor_index,
        _ => false,
    }
}

pub open spec fn same_opt_mode(a: Option<InputMode>, b: Option<InputMode>) -> bool {
    match (a, b) {
        (Some(x), Some(y)) => same_mode(x, y),
        (None, None) => true,
        _ => false,
    }
}

pub open spec fn opt_path_view(p: Option<FsPath>) -> Option<Seq<Seq<char>>> {
    match p {
        Some(x) => Some(x@),
        None => None,
    }
}

/// Two contexts that show the same: every field holds the same values.
pub open spec fn same_context(a: Context, b: Context) -> bool {
    &&& dir_views(a.current_siblings@) == dir_views(b.current_siblings@)
    &&& dir_views(a.parent_siblings@) == dir_views(b.parent_siblings@)
    &&& same_column(a.right_column, b.right_column)
    &&& opt_path_view(a.current_path) == opt_path_view(b.current_path)
    &&& a.parent_path@ == b.parent_path@
    &&& a.parent_index == b.parent_index
    &&& a.current_index == b.current_index
    &&& a.parent_siblings_shift == b.parent_siblings_shift
    &&& a.current_siblings_shift == b.current_siblings_shift
    &&& crate::direntry::opt_text(a.current_permissions) == crate::direntry::opt_text(b.current_permissions)
    &&& crate::direntry::opt_text(a.additional_entry_info) == crate::direntry::opt_text(b.additional_entry_info)
    &&& crate::direntry::opt_text(a.cumulative_size_text) == crate::direntry::opt_text(b.cumulative_size_text)
    &&& same_opt_mode(a.input_mode, b.input_mode)
}

impl RightColumn {
    /// A copy of the column.
    pub fn duplicate(&self) -> (r: RightColumn)
        ensures
            same_column(*self, r),
    {
        match self {
            RightColumn::Siblings(s) => RightColumn::Siblings(duplicate_all(s)),
            RightColumn::Preview(p) => RightColumn::Preview(copy_lines(p)),
            RightColumn::Empty => RightColumn::Empty,
        }
    }
}

impl InputMode {
    /// A copy of the mode.
    pub fn duplicate(&self) -> (r: InputMode)
        ensures
            input_mode_wf(Some(*self)) ==> input_mode_wf(Some(r)),
            same_mode(*self, r),
    {
        match self {
            InputMode::Search(t) => InputMode::Search(SearchTools {
                query: copy_of(t.query.as_str()),
                cursor_index: t.cursor_index,
                current_siblings_backup: duplicate_all(&t.current_siblings_backup),
            }),
            InputMode::ChangeName(t) => InputMode::ChangeName(ChangeNameTools {
                new_name: copy_of(t.new_name.as_str()),
                cursor_index: t.cursor_index,
            }),
            InputMode::Command(t) => InputMode::Command(CommandTools {
                text: copy_of(t.text.as_str()),
                cursor_index: t.cursor_index,
            }),
        }
    }
}

impl Context {
    /// A copy of the context.
    pub fn duplicate(&self) -> (r: Context)
        requires
            self.wf(),
        ensures
            r.wf(),
            same_context(*self, r),
    {
        let current_path = match &self.current_path {
            Some(p) => Some(p.duplicate()),
            None => None,
        };
        let input_mode = match &self.input_mode {
            Some(m) => Some(m.duplicate()),
            None => None,
        };
        let current_siblings = duplicate_all(&self.current_siblings);
        proof {
            assert(current_siblings@.len() == dir_views(current_siblings@).len());
            assert(self.current_siblings@.len() == dir_views(self.current_siblings@).len());
            if self.current_siblings@.len() > 0 {
                assert(dir_views(current_siblings@)[self.current_index as int] == dir_views(self.current_siblings@)[self.current_index as int]);
            }
        }
        Context {
            current_siblings,
            parent_siblings: duplicate_all(&self.parent_siblings),
            right_column: self.right_column.duplicate(),
            current_path,
            parent_path: self.parent_path.duplicate(),
            parent_index: self.parent_index,
            current_index: self.current_index,
            parent_siblings_shift: self.parent_siblings_shift,
            current_siblings_shift: self.current_siblings_shift,
            current_permissions: copy_opt_text(&self.current_permissions),
            additional_entry_info: copy_opt_text(&self.additional_entry_info),
            cumulative_size_text: copy_opt_text(&self.cumulative_size_text),
            input_mode,
        }
    }
}

impl Context {
    /// What `up` leaves behind.
    pub open spec fn moved_up(before: Context, after: Context, display: &DisplaySettings) -> bool {
        &&& after.wf()
        &&& after.current_siblings == before.current_siblings
        &&& after.parent_path == before.parent_path
        &&& after.current_index == index_after_up(before.current_siblings@.len(), before.current_index as nat)
        &&& after.input_mode == before.input_mode
        &&& before.current_siblings@.len() > 0 && before.current_index > 0 ==> {
            &&& after.cumulative_size_text is None
            &&& after.right_column is Empty
            &&& after.additional_entry_info is None
            &&& crate::direntry::opt_text(after.current_permissions) == shown_permissions(after.current_entry_view())
            &&& after.current_siblings_shift == shift_of(
                display.scrolling_gap as int,
                display.column_effective_height as int,
                after.current_index as int,
                after.current_siblings@.len() as int,
                Some(before.current_siblings_shift as int),
            )
        }
        &&& !(before.current_siblings@.len() > 0 && before.current_index > 0) ==> after == before
    }

    /// What `down` leaves behind.
    pub open spec fn moved_down(before: Context, after: Context, display: &DisplaySettings) -> bool {
        &&& after.wf()
        &&& after.current_siblings == before.current_siblings
        &&& after.parent_path == before.parent_path
        &&& after.current_index == index_after_down(before.current_siblings@.len(), before.current_index as nat)
        &&& after.input_mode == before.input_mode
        &&& before.current_index + 1 < before.current_siblings@.len() ==> {
            &&& after.cumulative_size_text is None
            &&& after.right_column is Empty
            &&& after.additional_entry_info is None
            &&& crate::direntry::opt_text(after.current_permissions) == shown_permissions(after.current_entry_view())
            &&& after.current_siblings_shift == shift_of(
                display.scrolling_gap as int,
                display.column_effective_height as int,
                after.current_index as int,
                after.current_siblings@.len() as int,
                Some(before.current_siblings_shift as int),
            )
        }
        &&& !(before.current_index + 1 < before.current_siblings@.len()) ==> after == before
    }

    /// What `go_home` leaves behind.
    pub open spec fn moved_home(before: Context, after: Context, display: &DisplaySettings) -> bool {
        &&& after.wf()
        &&& after.current_siblings == before.current_siblings
        &&& after.parent_path == before.parent_path
        &&& after.current_index == 0
        &&& before.current_siblings@.len() == 0 ==> after == before
        &&& before.current_siblings@.len() > 0 ==> after.right_column is Empty && after.additional_entry_info is None
    }

    /// What `go_end` leaves behind.
    pub open spec fn moved_end(before: Context, after: Context, display: &DisplaySettings) -> bool {
        &&& after.wf()
        &&& after.current_siblings == before.current_siblings
        &&& after.parent_path == before.parent_path
        &&& before.current_siblings@.len() > 0 ==> after.current_index == before.current_siblings@.len() - 1
        &&& before.current_siblings@.len() == 0 ==> after == before
        &&& before.current_siblings@.len() > 0 ==> after.right_column is Empty && after.additional_entry_info is None
    }

    /// What `apply_details` leaves behind.
    pub open spec fn details_applied(before: Context, after: Context, details: EntryDetails, display: &DisplaySettings, paint_settings: &PaintSettings, sorting_type: &SortingType, include_hidden: bool, selected: &Vec<FsPath>) -> bool {
        &&& after.wf()
        &&& after.current_path == before.current_path
        &&& after.parent_path == before.parent_path
        &&& after.current_index == before.current_index
        &&& after.input_mode == before.input_mode
        &&& after.current_siblings@.len() == before.current_siblings@.len()
        &&& after.current_siblings == before.current_siblings || (details_match(before, details) && details.size is Some)
        &&& landing_shown(after, details, display, paint_settings, sorting_type, include_hidden, selected)
        &&& forall|k: int| 0 <= k < after.current_siblings@.len() && k != before.current_index ==>
            after.current_siblings@[k] == before.current_siblings@[k]
        &&& before.current_siblings@.len() > 0 ==> {
            let i = before.current_index as int;
            let was = before.current_siblings@[i];
            let size = if details_match(before, details) { details.size } else { None };
            let now = after.current_siblings@[i];
            &&& now.size == match size { Some(n) => n, None => was.size }
            &&& now@ == (DirEntryView { size: now.size, ..was@ })
        }
    }

    /// What `update_current_without_siblings` leaves behind.
    pub open spec fn cursor_settled(before: Context, after: Context, display: &DisplaySettings) -> bool {
        &&& after.wf()
        &&& after.current_siblings == before.current_siblings
        &&& after.parent_path == before.parent_path
        &&& after.input_mode == before.input_mode
        &&& after.current_index == clamped(before.current_siblings@.len(), before.current_index as nat)
        &&& crate::direntry::opt_text(after.current_permissions) == shown_permissions(after.current_entry_view())
        &&& after.current_siblings_shift == shift_of(
            display.scrolling_gap as int,
            display.column_effective_height as int,
            after.current_index as int,
            after.current_siblings@.len() as int,
            Some(before.current_siblings_shift as int),
        )
    }

    /// What `update_current` leaves behind.
    pub open spec fn current_reread(before: Context, after: Context, listing: Vec<Entry>, display: &DisplaySettings, paint_settings: &PaintSettings, sorting_type: &SortingType, include_hidden: bool, selected: &Vec<FsPath>) -> bool {
        &&& after.wf()
        &&& after.parent_path == before.parent_path
        &&& after.current_index == clamped(after.current_siblings@.len(), before.current_index as nat)
        &&& match (before.input_mode, after.input_mode) {
            (Some(InputMode::Search(a)), Some(InputMode::Search(b))) => {
                &&& b.query == a.query
                &&& b.cursor_index == a.cursor_index
                &&& fresh_listing(dir_views(b.current_siblings_backup@), crate::entry::views_of(listing@),
                    *paint_settings, *sorting_type, include_hidden, selected@, Some(before.parent_path@))
                &&& dir_views(after.current_siblings@) == filtered(dir_views(b.current_siblings_backup@), a.query@)
            },
            (Some(InputMode::Search(_)), _) => false,
            (m, n) => m == n && fresh_listing(dir_views(after.current_siblings@), crate::entry::views_of(listing@),
                *paint_settings, *sorting_type, include_hidden, selected@, Some(before.parent_path@)),
        }
    }

    /// What `left` leaves behind.
    pub open spec fn moved_left(before: Context, after: Context, children: Vec<Entry>, parent_listing: Vec<Entry>, details: EntryDetails, display: &DisplaySettings, paint_settings: &PaintSettings, sorting_type: &SortingType, include_hidden: bool, selected: &Vec<FsPath>) -> bool {
        &&& after.wf()
        &&& before.parent_path@.len() == 0 ==> after == before
        &&& before.parent_path@.len() > 0 ==> {
            &&& after.parent_path@ == before.parent_path@.drop_last()
            &&& after.input_mode is None
            &&& after.cumulative_size_text is None
            &&& landing_shown(after, details, display, paint_settings, sorting_type, include_hidden, selected)
            &&& after.current_siblings_shift == before.parent_siblings_shift
            &&& fresh_listing(dir_views(after.current_siblings@), crate::entry::views_of(children@),
                *paint_settings, *sorting_type, include_hidden, selected@, Some(after.parent_path@))
            &&& (exists|k: int| 0 <= k < after.current_siblings@.len()
                && after.current_siblings@[k].name@ == before.parent_path@.last())
                ==> after.current_path is Some && after.current_path->0@ == before.parent_path@
            &&& after.parent_siblings_shift == shift_of(display.scrolling_gap as int,
                display.column_effective_height as int, after.parent_index as int,
                after.parent_siblings@.len() as int, None)
        }
    }

    /// What `right` leaves behind.
    pub open spec fn moved_right(before: Context, after: Context, children: Vec<Entry>, parent_listing: Vec<Entry>, details: EntryDetails, display: &DisplaySettings, paint_settings: &PaintSettings, sorting_type: &SortingType, include_hidden: bool, selected: &Vec<FsPath>) -> bool {
        &&& after.wf()
        &&& before.current_path is None ==> after == before
        &&& before.current_path is Some ==> {
            &&& after.parent_path@ == before.current_path->0@
            &&& after.current_index == 0
            &&& after.current_siblings_shift == 0
            &&& after.parent_siblings_shift == before.current_siblings_shift
            &&& after.parent_index == before.current_index
            &&& after.input_mode is None
            &&& after.cumulative_size_text is None
            &&& landing_shown(after, details, display, paint_settings, sorting_type, include_hidden, selected)
            &&& fresh_listing(dir_views(after.current_siblings@), crate::entry::views_of(children@),
                *paint_settings, *sorting_type, include_hidden, selected@, Some(after.parent_path@))
        }
    }

    /// What `start_search` leaves behind.
    pub open spec fn search_started(before: Context, after: Context) -> bool {
        &&& after.wf()
        &&& after.current_siblings == before.current_siblings
        &&& after.current_path == before.current_path
        &&& after.current_index == before.current_index
        &&& match (before.input_mode, after.input_mode) {
            (Some(InputMode::Search(a)), Some(InputMode::Search(b))) => b.query == a.query
                && b.cursor_index == Some(a.query@.len() as usize)
                && b.current_siblings_backup == a.current_siblings_backup,
            (_, Some(InputMode::Search(b))) => b.query@.len() == 0 && b.cursor_index == Some(0usize)
                && dir_views(b.current_siblings_backup@) == dir_views(before.current_siblings@),
            _ => false,
        }
    }

    /// What `start_changing_current_name` leaves behind.
    pub open spec fn renaming_started(before: Context, after: Context) -> bool {
        &&& after.wf()
        &&& before.current_siblings@.len() == 0 ==> after == before
        &&& before.current_siblings@.len() > 0 ==> after.current_siblings == before.current_siblings
            && after.current_path == before.current_path
            && after.current_index == before.current_index
            && match after.input_mode {
                Some(InputMode::ChangeName(t)) => t.new_name@ == before.current_siblings@[before.current_index as int].name@
                    && t.cursor_index == t.new_name@.len(),
                _ => false,
            }
    }

    /// What `start_command` leaves behind.
    pub open spec fn command_started(before: Context, after: Context) -> bool {
        &&& after.wf()
        &&& after.current_siblings == before.current_siblings
        &&& after.current_path == before.current_path
        &&& after.current_index == before.current_index
        &&& match after.input_mode {
            Some(InputMode::Command(t)) => t.text@.len() == 0 && t.cursor_index == 0,
            _ => false,
        }
    }

    /// What `cancel_input` leaves behind.
    pub open spec fn input_cancelled(before: Context, after: Context, display: &DisplaySettings) -> bool {
        &&& after.wf()
        &&& after.input_mode is None
        &&& after.parent_path == before.parent_path
        &&& match before.input_mode {
            Some(InputMode::Search(t)) => after.current_siblings == t.current_siblings_backup
                && after.current_index == clamped(t.current_siblings_backup@.len(), before.current_index as nat),
            _ => after.current_siblings == before.current_siblings
                && after.current_path == before.current_path
                && after.current_index == before.current_index,
        }
    }

    /// What `confirm_input` leaves behind.
    pub open spec fn input_confirmed(before: Context, after: Context, r: Option<InputAction>) -> bool {
        &&& after.wf()
        &&& after.current_siblings == before.current_siblings
        &&& after.current_path == before.current_path
        &&& after.current_index == before.current_index
        &&& after.parent_path == before.parent_path
        &&& match before.input_mode {
            Some(InputMode::Search(t)) => r is None && match after.input_mode {
                Some(InputMode::Search(u)) => u.query == t.query && u.cursor_index is None
                    && u.current_siblings_backup == t.current_siblings_backup,
                _ => false,
            },
            Some(InputMode::ChangeName(t)) => after.input_mode is None && match r {
                Some(InputAction::Rename { path, new_name }) => before.current_path is Some
                    && path@ == before.current_path->0@ && new_name == t.new_name,
                _ => before.current_path is None && r is None,
            },
            Some(InputMode::Command(t)) => after.input_mode is None && match r {
                Some(InputAction::Execute { directory, text }) => directory@ == before.parent_path@ && text == t.text,
                _ => false,
            },
            None => r is None && after.input_mode is None,
        }
    }

    /// What `move_input_cursor_left` leaves behind.
    pub open spec fn cursor_moved_left(before: Context, after: Context) -> bool {
        &&& after.wf()
        &&& after.current_siblings == before.current_siblings
        &&& after.current_path == before.current_path
        &&& after.current_index == before.current_index
        &&& match (before.input_mode, after.input_mode) {
            (Some(InputMode::ChangeName(a)), Some(InputMode::ChangeName(b))) => b.new_name == a.new_name
                && b.cursor_index == if a.cursor_index >= 1 { (a.cursor_index - 1) as usize } else { a.cursor_index },
            (Some(InputMode::Command(a)), Some(InputMode::Command(b))) => b.text == a.text
                && b.cursor_index == if a.cursor_index >= 1 { (a.cursor_index - 1) as usize } else { a.cursor_index },
            (Some(InputMode::ChangeName(_)), _) => false,
            (Some(InputMode::Command(_)), _) => false,
            (m, n) => m == n,
        }
    }

    /// What `move_input_cursor_right` leaves behind.
    pub open spec fn cursor_moved_right(before: Context, after: Context) -> bool {
        &&& after.wf()
        &&& after.current_siblings == before.current_siblings
        &&& after.current_path == before.current_path
        &&& after.current_index == before.current_index
        &&& match (before.input_mode, after.input_mode) {
            (Some(InputMode::ChangeName(a)), Some(InputMode::ChangeName(b))) => b.new_name == a.new_name
                && b.cursor_index == if a.cursor_index < a.new_name@.len() { (a.cursor_index + 1) as usize } else { a.cursor_index },
            (Some(InputMode::Command(a)), Some(InputMode::Command(b))) => b.text == a.text
                && b.cursor_index == if a.cursor_index < a.text@.len() { (a.cursor_index + 1) as usize } else { a.cursor_index },
            (Some(InputMode::ChangeName(_)), _) => false,
            (Some(InputMode::Command(_)), _) => false,
            (m, n) => m == n,
        }
    }

    /// What `insert_input` leaves behind.
    pub open spec fn input_inserted(before: Context, after: Context, c: char, display: &DisplaySettings) -> bool {
        &&& after.wf()
        &&& after.parent_path == before.parent_path
        &&& !(alphanumeric(c) || typeable_symbol(c)) ==> after == before
        &&& (alphanumeric(c) || typeable_symbol(c)) ==> match (before.input_mode, after.input_mode) {
            (Some(InputMode::Search(a)), Some(InputMode::Search(b))) => {
                &&& b.query@ == a.query@.push(c)
                &&& b.cursor_index == match a.cursor_index {
                    Some(i) => Some((i + 1) as usize),
                    None => None,
                }
                &&& b.current_siblings_backup == a.current_siblings_backup
                &&& dir_views(after.current_siblings@) == filtered(dir_views(before.current_siblings@), b.query@)
                &&& after.current_index == clamped(after.current_siblings@.len(), before.current_index as nat)
            },
            (Some(InputMode::ChangeName(a)), Some(InputMode::ChangeName(b))) => {
                &&& b.new_name@ == a.new_name@.insert(a.cursor_index as int, c)
                &&& b.cursor_index == a.cursor_index + 1
                &&& after.current_siblings == before.current_siblings
            },
            (Some(InputMode::Command(a)), Some(InputMode::Command(b))) => {
                &&& b.text@ == a.text@.insert(a.cursor_index as int, c)
                &&& b.cursor_index == a.cursor_index + 1
                &&& after.current_siblings == before.current_siblings
            },
            (None, None) => after == before,
            _ => false,
        }
    }

    /// What `remove_input_before_cursor` leaves behind.
    pub open spec fn input_removed_before(before: Context, after: Context, display: &DisplaySettings) -> bool {
        &&& after.wf()
        &&& after.parent_path == before.parent_path
        &&& match (before.input_mode, after.input_mode) {
            (Some(InputMode::Search(a)), Some(InputMode::Search(b))) => if a.query@.len() > 0 {
                &&& b.query@ == a.query@.drop_last()
                &&& b.cursor_index == match a.cursor_index {
                    Some(i) => Some((i - 1) as usize),
                    None => None,
                }
                &&& b.current_siblings_backup == a.current_siblings_backup
                &&& dir_views(after.current_siblings@) == filtered(dir_views(a.current_siblings_backup@), b.query@)
                &&& after.current_index == clamped(after.current_siblings@.len(), before.current_index as nat)
            } else {
                after == before
            },
            (Some(InputMode::ChangeName(a)), Some(InputMode::ChangeName(b))) => if a.cursor_index > 0 {
                b.new_name@ == a.new_name@.remove(a.cursor_index - 1) && b.cursor_index == a.cursor_index - 1
                    && after.current_siblings == before.current_siblings
            } else {
                after == before
            },
            (Some(InputMode::Command(a)), Some(InputMode::Command(b))) => if a.cursor_index > 0 {
                b.text@ == a.text@.remove(a.cursor_index - 1) && b.cursor_index == a.cursor_index - 1
                    && after.current_siblings == before.current_siblings
            } else {
                after == before
            },
            (None, None) => after == before,
            _ => false,
        }
    }

    /// What `remove_input_under_cursor` leaves behind.
    pub open spec fn input_removed_under(before: Context, after: Context) -> bool {
        &&& after.wf()
        &&& after.current_siblings == before.current_siblings
        &&& after.current_path == before.current_path
        &&& after.current_index == before.current_index
        &&& match (before.input_mode, after.input_mode) {
            (Some(InputMode::ChangeName(a)), Some(InputMode::ChangeName(b))) => b.cursor_index == a.cursor_index
                && b.new_name@ == if a.cursor_index < a.new_name@.len() { a.new_name@.remove(a.cursor_index as int) } else { a.new_name@ },
            (Some(InputMode::Command(a)), Some(InputMode::Command(b))) => b.cursor_index == a.cursor_index
                && b.text@ == if a.cursor_index < a.text@.len() { a.text@.remove(a.cursor_index as int) } else { a.text@ },
            (Some(InputMode::ChangeName(_)), _) => false,
            (Some(InputMode::Command(_)), _) => false,
            (m, n) => m == n,
        }
    }
}

} // verus!
