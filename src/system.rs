//! The file manager as a whole: the tabs, the selection, staged and
//! running transfers, and the settings they share.
use vstd::prelude::*;
use crate::coloring::{Paint, PaintSettings};
use crate::context::{Context, EntryDetails, InputAction, index_after_up, index_after_down};
use crate::direntry::{DirEntry, DirEntryView, dir_views, selection_has};
use crate::drawing::DisplaySettings;
use crate::entry::Entry;
use crate::input::SortingType;
use crate::notification::{Millis, Notification};
use crate::path::FsPath;
use crate::spawn::{SpawnPattern, generate_spawn_patterns};
use crate::tab::{Tab, tab_name, tab_name_from_path};
use crate::transfer::{PotentialTransfer, Transfer, TransferType};

verus! {

pub struct Settings {
    pub paint_settings: PaintSettings,
    pub primary_paint: Paint,
    pub preview_paint: Paint,
    pub columns_ratio: Vec<u32>,
    pub scrolling_gap: usize,
    pub copy_done_notification_delay_ms: Millis,
}

pub struct System {
    pub settings: Settings,
    pub display_settings: DisplaySettings,
    pub sorting_type: SortingType,
    pub spawn_patterns: Vec<SpawnPattern>,
    pub notification: Option<Notification>,
    pub transfers: Vec<Transfer>,
    pub potential_transfer_data: Option<PotentialTransfer>,
    pub selected: Vec<FsPath>,
    pub tabs: Vec<Tab>,
    pub current_tab_index: usize,
    pub show_hidden: bool,
}

impl System {
    pub open spec fn wf(&self) -> bool {
        &&& self.display_settings.wf()
        &&& self.tabs@.len() > 0
        &&& self.current_tab_index < self.tabs@.len()
        &&& forall|i: int| 0 <= i < self.tabs@.len() ==> (#[trigger] self.tabs@[i]).context.wf()
        &&& forall|i: int| 0 <= i < self.transfers@.len() ==> (#[trigger] self.transfers@[i]).wf()
        &&& forall|i: int| 0 <= i < self.selected@.len() ==> (#[trigger] self.selected@[i])@.len() > 0
        &&& no_duplicates(self.selected@)
        &&& match self.potential_transfer_data {
            Some(p) => p.src_paths@.len() == p.src_sizes@.len() && forall|i: int|
                0 <= i < p.src_paths@.len() ==> (#[trigger] p.src_paths@[i])@.len() > 0,
            None => true,
        }
    }

    /// The context of the current tab.
    pub open spec fn ctx(&self) -> Context {
        self.tabs@[self.current_tab_index as int].context
    }

    /// Everything but the current tab's context stays.
    pub open spec fn same_but_context(&self, other: &System) -> bool {
        &&& self.tabs@.len() == other.tabs@.len()
        &&& self.current_tab_index == other.current_tab_index
        &&& forall|i: int| 0 <= i < self.tabs@.len() && i != self.current_tab_index ==> self.tabs@[i] == other.tabs@[i]
        &&& self.tabs@[self.current_tab_index as int].name == other.tabs@[other.current_tab_index as int].name
        &&& self.selected == other.selected
        &&& self.transfers == other.transfers
        &&& self.potential_transfer_data == other.potential_transfer_data
        &&& self.display_settings == other.display_settings
        &&& self.sorting_type == other.sorting_type
        &&& self.show_hidden == other.show_hidden
    }

    /// The context of the current tab.
    pub fn context_ref(&self) -> (r: &Context)
        requires
            self.wf(),
        ensures
            *r == self.ctx(),
    {
        &self.tabs[self.current_tab_index].context
    }

    /// Moves the cursor one entry up.
    pub fn up(&mut self)
        requires
            old(self).wf(),
        ensures
            final(self).wf(),
            Context::moved_up(old(self).ctx(), final(self).ctx(), &old(self).display_settings),
            final(self).same_but_context(old(self)),
            final(self).ctx().current_index == index_after_up(
                old(self).ctx().current_siblings@.len(), old(self).ctx().current_index as nat),
            final(self).ctx().current_siblings == old(self).ctx().current_siblings,
            final(self).ctx().parent_path == old(self).ctx().parent_path,
    {
        let i = self.current_tab_index;
        self.tabs[i].context.up(&self.display_settings);
    }

    /// Moves the cursor one entry down.
    pub fn down(&mut self)
        requires
            old(self).wf(),
        ensures
            final(self).wf(),
            Context::moved_down(old(self).ctx(), final(self).ctx(), &old(self).display_settings),
            final(self).same_but_context(old(self)),
            final(self).ctx().current_index == index_after_down(
                old(self).ctx().current_siblings@.len(), old(self).ctx().current_index as nat),
            final(self).ctx().current_siblings == old(self).ctx().current_siblings,
            final(self).ctx().parent_path == old(self).ctx().parent_path,
    {
        let i = self.current_tab_index;
        self.tabs[i].context.down(&self.display_settings);
    }

    /// Moves the cursor to the first entry.
    pub fn go_home(&mut self)
        requires
            old(self).wf(),
        ensures
            final(self).wf(),
            Context::moved_home(old(self).ctx(), final(self).ctx(), &old(self).display_settings),
            final(self).same_but_context(old(self)),
            final(self).ctx().current_index == 0,
            final(self).ctx().current_siblings == old(self).ctx().current_siblings,
    {
        let i = self.current_tab_index;
        self.tabs[i].context.go_home(&self.display_settings);
    }

    /// Moves the cursor to the last entry.
    pub fn go_end(&mut self)
        requires
            old(self).wf(),
        ensures
            final(self).wf(),
            Context::moved_end(old(self).ctx(), final(self).ctx(), &old(self).display_settings),
            final(self).same_but_context(old(self)),
            old(self).ctx().current_siblings@.len() > 0 ==> final(self).ctx().current_index
                == old(self).ctx().current_siblings@.len() - 1,
            final(self).ctx().current_siblings == old(self).ctx().current_siblings,
    {
        let i = self.current_tab_index;
        self.tabs[i].context.go_end(&self.display_settings);
    }

    fn update_current_tab_name(&mut self)
        requires
            old(self).wf(),
        ensures
            final(self).wf(),
            final(self).tabs@.len() == old(self).tabs@.len(),
            final(self).current_tab_index == old(self).current_tab_index,
            final(self).ctx() == old(self).ctx(),
            final(self).tabs@[final(self).current_tab_index as int].name@ == tab_name(final(self).ctx().parent_path@),
            forall|k: int| 0 <= k < final(self).tabs@.len() && k != final(self).current_tab_index
                ==> final(self).tabs@[k] == old(self).tabs@[k],
            final(self).selected == old(self).selected,
            final(self).transfers == old(self).transfers,
            final(self).potential_transfer_data == old(self).potential_transfer_data,
            final(self).display_settings == old(self).display_settings,
            final(self).sorting_type == old(self).sorting_type,
            final(self).show_hidden == old(self).show_hidden,
    {
        let i = self.current_tab_index;
        let name = tab_name_from_path(&self.tabs[i].context.parent_path);
        self.tabs[i].name = name;
    }

    /// Moves into the parent directory, given the raw listings of the new
    /// parent and of its own parent, and what was read for the entry that
    /// lands under the cursor; nothing happens at the root.
    pub fn left(&mut self, children: Vec<Entry>, parent_listing: Vec<Entry>, details: EntryDetails)
        requires
            old(self).wf(),
        ensures
            final(self).wf(),
            Context::moved_left(old(self).ctx(), final(self).ctx(), children, parent_listing, details, &old(self).display_settings, &old(self).settings.paint_settings, &old(self).sorting_type, old(self).show_hidden, &old(self).selected),
            final(self).tabs@.len() == old(self).tabs@.len(),
            final(self).current_tab_index == old(self).current_tab_index,
            final(self).selected == old(self).selected,
            old(self).ctx().parent_path@.len() == 0 ==> final(self).ctx() == old(self).ctx(),
            old(self).ctx().parent_path@.len() > 0 ==> {
                &&& final(self).ctx().parent_path@ == old(self).ctx().parent_path@.drop_last()
                &&& final(self).ctx().input_mode is None
            },
            final(self).tabs@[final(self).current_tab_index as int].name@ == tab_name(final(self).ctx().parent_path@),
    {
        let i = self.current_tab_index;
        self.tabs[i].context.left(
            children, parent_listing, details, &self.display_settings, &self.settings.paint_settings,
            &self.sorting_type, self.show_hidden, &self.selected,
        );
        self.update_current_tab_name();
    }

    /// Moves into the directory under the cursor, given the raw listings
    /// of that directory and of the current one, and what was read for the
    /// entry that lands under the cursor.
    pub fn right(&mut self, children: Vec<Entry>, parent_listing: Vec<Entry>, details: EntryDetails)
        requires
            old(self).wf(),
        ensures
            final(self).wf(),
            Context::moved_right(old(self).ctx(), final(self).ctx(), children, parent_listing, details, &old(self).display_settings, &old(self).settings.paint_settings, &old(self).sorting_type, old(self).show_hidden, &old(self).selected),
            final(self).tabs@.len() == old(self).tabs@.len(),
            final(self).current_tab_index == old(self).current_tab_index,
            final(self).selected == old(self).selected,
            old(self).ctx().current_path is None ==> final(self).ctx() == old(self).ctx(),
            old(self).ctx().current_path is Some ==> {
                &&& final(self).ctx().parent_path@ == old(self).ctx().current_path->0@
                &&& final(self).ctx().current_index == 0
                &&& final(self).ctx().input_mode is None
            },
            final(self).tabs@[final(self).current_tab_index as int].name@ == tab_name(final(self).ctx().parent_path@),
    {
        let i = self.current_tab_index;
        self.tabs[i].context.right(
            children, parent_listing, details, &self.display_settings, &self.settings.paint_settings,
            &self.sorting_type, self.show_hidden, &self.selected,
        );
        self.update_current_tab_name();
    }

    /// Takes in what was read for the entry under the cursor.
    pub fn apply_details(&mut self, details: EntryDetails)
        requires
            old(self).wf(),
        ensures
            final(self).wf(),
            Context::details_applied(old(self).ctx(), final(self).ctx(), details, &old(self).display_settings, &old(self).settings.paint_settings, &old(self).sorting_type, old(self).show_hidden, &old(self).selected),
            final(self).same_but_context(old(self)),
            final(self).ctx().current_path == old(self).ctx().current_path,
            final(self).ctx().current_index == old(self).ctx().current_index,
    {
        let i = self.current_tab_index;
        self.tabs[i].context.apply_details(
            details, &self.display_settings, &self.settings.paint_settings, &self.sorting_type,
            self.show_hidden, &self.selected,
        );
    }

    /// Re-reads the current directory from its raw listing.
    pub fn update_current(&mut self, listing: Vec<Entry>)
        requires
            old(self).wf(),
        ensures
            final(self).wf(),
            Context::current_reread(old(self).ctx(), final(self).ctx(), listing, &old(self).display_settings, &old(self).settings.paint_settings, &old(self).sorting_type, old(self).show_hidden, &old(self).selected),
            final(self).same_but_context(old(self)),
            final(self).ctx().parent_path == old(self).ctx().parent_path,
    {
        let i = self.current_tab_index;
        self.tabs[i].context.update_current(
            listing, &self.display_settings, &self.settings.paint_settings, &self.sorting_type,
            self.show_hidden, &self.selected,
        );
    }

    /// Settles the cursor inside the current list as it stands.
    pub fn update_current_without_siblings(&mut self)
        requires
            old(self).wf(),
        ensures
            final(self).wf(),
            Context::cursor_settled(old(self).ctx(), final(self).ctx(), &old(self).display_settings),
            final(self).same_but_context(old(self)),
            final(self).ctx().current_siblings == old(self).ctx().current_siblings,
    {
        let i = self.current_tab_index;
        self.tabs[i].context.update_current_without_siblings(&self.display_settings);
    }

    /// Sorts the listings the new way, re-reading the current directory.
    pub fn sort_with(&mut self, new_sorting_type: SortingType, listing: Vec<Entry>)
        requires
            old(self).wf(),
        ensures
            final(self).wf(),
            final(self).sorting_type == new_sorting_type,
            Context::current_reread(old(self).ctx(), final(self).ctx(), listing, &old(self).display_settings,
                &old(self).settings.paint_settings, &new_sorting_type, old(self).show_hidden, &old(self).selected),
            final(self).tabs@.len() == old(self).tabs@.len(),
            final(self).current_tab_index == old(self).current_tab_index,
            final(self).selected == old(self).selected,
    {
        self.sorting_type = new_sorting_type;
        self.update_current(listing);
    }

    /// Rebuilds the current tab for `parent_path` from the raw listings of
    /// that directory and of its parent, keeping the sort order, the
    /// selection and whether hidden entries show.
    fn regenerate(&mut self, parent_path: FsPath, children: Vec<Entry>, parent_listing: Vec<Entry>, details: EntryDetails)
        requires
            old(self).wf(),
        ensures
            final(self).wf(),
            final(self).ctx().parent_path@ == parent_path@,
            final(self).ctx().current_index == 0,
            final(self).ctx().input_mode is None,
            final(self).tabs@.len() == old(self).tabs@.len(),
            final(self).current_tab_index == old(self).current_tab_index,
            final(self).selected == old(self).selected,
            final(self).sorting_type == old(self).sorting_type,
            final(self).show_hidden == old(self).show_hidden,
            final(self).tabs@[final(self).current_tab_index as int].name@ == tab_name(parent_path@),
            crate::context::fresh_listing(dir_views(final(self).ctx().current_siblings@), crate::entry::views_of(children@),
                old(self).settings.paint_settings, old(self).sorting_type, old(self).show_hidden, old(self).selected@,
                Some(parent_path@)),
            crate::context::landing_shown(final(self).ctx(), details, &old(self).display_settings,
                &old(self).settings.paint_settings, &old(self).sorting_type, old(self).show_hidden, &old(self).selected),
    {
        let i = self.current_tab_index;
        let context = Context::generate(
            parent_path, children, parent_listing, details, &self.display_settings, &self.settings.paint_settings,
            &self.sorting_type, self.show_hidden, &self.selected,
        );
        self.tabs[i].context = context;
        self.update_current_tab_name();
    }

    /// Goes to a directory, given its raw listing and that of its parent,
    /// and what was read for the entry that lands under the cursor.
    pub fn goto(&mut self, path: FsPath, children: Vec<Entry>, parent_listing: Vec<Entry>, details: EntryDetails)
        requires
            old(self).wf(),
        ensures
            final(self).wf(),
            final(self).ctx().parent_path@ == path@,
            final(self).ctx().current_index == 0,
            final(self).tabs@[final(self).current_tab_index as int].name@ == tab_name(path@),
            crate::context::fresh_listing(dir_views(final(self).ctx().current_siblings@), crate::entry::views_of(children@),
                old(self).settings.paint_settings, old(self).sorting_type, old(self).show_hidden, old(self).selected@,
                Some(path@)),
            crate::context::landing_shown(final(self).ctx(), details, &old(self).display_settings,
                &old(self).settings.paint_settings, &old(self).sorting_type, old(self).show_hidden, &old(self).selected),
            final(self).tabs@.len() == old(self).tabs@.len(),
            final(self).selected == old(self).selected,
            final(self).sorting_type == old(self).sorting_type,
            final(self).show_hidden == old(self).show_hidden,
    {
        self.regenerate(path, children, parent_listing, details);
    }

    /// Shows or hides the entries whose names start with a dot, rebuilding
    /// the current tab from fresh raw listings of its directory and of
    /// that directory's parent, and what was read for the entry that lands
    /// under the cursor.
    pub fn toggle_hidden(&mut self, children: Vec<Entry>, parent_listing: Vec<Entry>, details: EntryDetails)
        requires
            old(self).wf(),
        ensures
            final(self).wf(),
            final(self).show_hidden == !old(self).show_hidden,
            final(self).ctx().parent_path@ == old(self).ctx().parent_path@,
            final(self).ctx().current_index == 0,
            crate::context::fresh_listing(dir_views(final(self).ctx().current_siblings@), crate::entry::views_of(children@),
                old(self).settings.paint_settings, old(self).sorting_type, !old(self).show_hidden, old(self).selected@,
                Some(old(self).ctx().parent_path@)),
            crate::context::landing_shown(final(self).ctx(), details, &old(self).display_settings,
                &old(self).settings.paint_settings, &old(self).sorting_type, !old(self).show_hidden, &old(self).selected),
            final(self).selected == old(self).selected,
    {
        self.show_hidden = !self.show_hidden;
        let i = self.current_tab_index;
        let parent_path = self.tabs[i].context.parent_path.duplicate();
        self.regenerate(parent_path, children, parent_listing, details);
    }

    /// Takes in a new screen size: the scroll windows are placed afresh.
    pub fn resize(&mut self, display_settings: DisplaySettings)
        requires
            old(self).wf(),
            display_settings.wf(),
        ensures
            final(self).wf(),
            final(self).display_settings == display_settings,
            final(self).tabs@.len() == old(self).tabs@.len(),
            final(self).current_tab_index == old(self).current_tab_index,
            final(self).ctx().current_siblings_shift == crate::shift::shift_of(
                display_settings.scrolling_gap as int, display_settings.column_effective_height as int,
                old(self).ctx().current_index as int, old(self).ctx().current_siblings@.len() as int, None),
            final(self).ctx().parent_siblings_shift == crate::shift::shift_of(
                display_settings.scrolling_gap as int, display_settings.column_effective_height as int,
                old(self).ctx().parent_index as int, old(self).ctx().parent_siblings@.len() as int, None),
    {
        self.display_settings = display_settings;
        let i = self.current_tab_index;
        let parent_shift = crate::shift::siblings_shift_for(
            self.display_settings.scrolling_gap, self.display_settings.column_effective_height,
            self.tabs[i].context.parent_index, self.tabs[i].context.parent_siblings.len(), None,
        );
        let current_shift = crate::shift::siblings_shift_for(
            self.display_settings.scrolling_gap, self.display_settings.column_effective_height,
            self.tabs[i].context.current_index, self.tabs[i].context.current_siblings.len(), None,
        );
        self.tabs[i].context.parent_siblings_shift = parent_shift;
        self.tabs[i].context.current_siblings_shift = current_shift;
    }

    /// Shows the cumulative size of the entry under the cursor, measured by
    /// the caller; nothing happens in an empty directory.
    pub fn get_cumulative_size(&mut self, size: u64)
        requires
            old(self).wf(),
            size < crate::entry::HUMAN_SIZE_LIMIT,
        ensures
            final(self).wf(),
            final(self).same_but_context(old(self)),
            old(self).ctx().current_path is Some ==> final(self).ctx().cumulative_size_text is Some
                && final(self).ctx().cumulative_size_text->0@ == "Size: "@ + crate::entry::human_size_text(size as nat),
            old(self).ctx().current_path is None ==> *final(self) == *old(self),
    {
        let i = self.current_tab_index;
        if self.tabs[i].context.current_path.is_none() {
            return;
        }
        self.tabs[i].context.set_cumulative_size(size);
    }

    /// Whether keys go into a text field.
    pub fn inside_input_mode(&self) -> (r: bool)
        requires
            self.wf(),
        ensures
            r == match self.ctx().input_mode {
                Some(crate::input_mode::InputMode::Search(t)) => t.cursor_index is Some,
                Some(_) => true,
                None => false,
            },
    {
        self.tabs[self.current_tab_index].context.inside_input_mode()
    }

    pub fn start_search(&mut self)
        requires
            old(self).wf(),
        ensures
            final(self).wf(),
            Context::search_started(old(self).ctx(), final(self).ctx()),
            final(self).same_but_context(old(self)),
            final(self).ctx().input_mode is Some && final(self).ctx().input_mode->0 is Search,
    {
        let i = self.current_tab_index;
        self.tabs[i].context.start_search();
    }

    pub fn start_command(&mut self)
        requires
            old(self).wf(),
        ensures
            final(self).wf(),
            Context::command_started(old(self).ctx(), final(self).ctx()),
            final(self).same_but_context(old(self)),
            final(self).ctx().input_mode is Some && final(self).ctx().input_mode->0 is Command,
    {
        let i = self.current_tab_index;
        self.tabs[i].context.start_command();
    }

    pub fn start_changing_current_name(&mut self)
        requires
            old(self).wf(),
        ensures
            final(self).wf(),
            Context::renaming_started(old(self).ctx(), final(self).ctx()),
            final(self).same_but_context(old(self)),
            old(self).ctx().current_path is Some ==> final(self).ctx().input_mode is Some
                && final(self).ctx().input_mode->0 is ChangeName,
    {
        let i = self.current_tab_index;
        self.tabs[i].context.start_changing_current_name();
    }

    pub fn cancel_input(&mut self)
        requires
            old(self).wf(),
        ensures
            final(self).wf(),
            Context::input_cancelled(old(self).ctx(), final(self).ctx(), &old(self).display_settings),
            final(self).same_but_context(old(self)),
            final(self).ctx().input_mode is None,
    {
        let i = self.current_tab_index;
        self.tabs[i].context.cancel_input(&self.display_settings);
    }

    /// Confirms the text being entered; a rename or a command comes back
    /// for the caller to carry out.
    pub fn confirm_input(&mut self) -> (r: Option<InputAction>)
        requires
            old(self).wf(),
        ensures
            final(self).wf(),
            Context::input_confirmed(old(self).ctx(), final(self).ctx(), r),
            final(self).same_but_context(old(self)),
    {
        let i = self.current_tab_index;
        self.tabs[i].context.confirm_input()
    }

    pub fn move_input_cursor_left(&mut self)
        requires
            old(self).wf(),
        ensures
            final(self).wf(),
            Context::cursor_moved_left(old(self).ctx(), final(self).ctx()),
            final(self).same_but_context(old(self)),
    {
        let i = self.current_tab_index;
        self.tabs[i].context.move_input_cursor_left();
    }

    pub fn move_input_cursor_right(&mut self)
        requires
            old(self).wf(),
        ensures
            final(self).wf(),
            Context::cursor_moved_right(old(self).ctx(), final(self).ctx()),
            final(self).same_but_context(old(self)),
    {
        let i = self.current_tab_index;
        self.tabs[i].context.move_input_cursor_right();
    }

    pub fn insert_input(&mut self, c: char)
        requires
            old(self).wf(),
        ensures
            final(self).wf(),
            Context::input_inserted(old(self).ctx(), final(self).ctx(), c, &old(self).display_settings),
            final(self).same_but_context(old(self)),
    {
        let i = self.current_tab_index;
        self.tabs[i].context.insert_input(c, &self.display_settings);
    }

    pub fn remove_input_before_cursor(&mut self)
        requires
            old(self).wf(),
        ensures
            final(self).wf(),
            Context::input_removed_before(old(self).ctx(), final(self).ctx(), &old(self).display_settings),
            final(self).same_but_context(old(self)),
    {
        let i = self.current_tab_index;
        self.tabs[i].context.remove_input_before_cursor(&self.display_settings);
    }

    pub fn remove_input_under_cursor(&mut self)
        requires
            old(self).wf(),
        ensures
            final(self).wf(),
            Context::input_removed_under(old(self).ctx(), final(self).ctx()),
            final(self).same_but_context(old(self)),
    {
        let i = self.current_tab_index;
        self.tabs[i].context.remove_input_under_cursor();
    }
}

/// The selection holds each path at most once.
pub open spec fn no_duplicates(sel: Seq<FsPath>) -> bool {
    forall|i: int, j: int| 0 <= i < j < sel.len() ==> sel[i]@ != sel[j]@
}

/// Where the path stands in the selection, if it is there.
fn position_of(selected: &Vec<FsPath>, path: &FsPath) -> (r: Option<usize>)
    ensures
        match r {
            Some(k) => k < selected@.len() && selected@[k as int]@ == path@,
            None => !selection_has(selected@, path@),
        },
{
    let mut k: usize = 0;
    while k < selected.len()
        invariant
            k <= selected@.len(),
            forall|m: int| 0 <= m < k ==> selected@[m]@ != path@,
        decreases selected@.len() - k,
    {
        if selected[k].same(path) {
            return Some(k);
        }
        k = k + 1;
    }
    None
}

/// The entry with its selection flag set as given.
pub open spec fn flagged(e: DirEntryView, flag: bool) -> DirEntryView {
    DirEntryView { is_selected: flag, ..e }
}

/// Sets the selection flag of the entries with the given name.
fn set_selected_by_name(entries: &mut Vec<DirEntry>, name: &str, flag: bool)
    ensures
        final(entries)@.len() == old(entries)@.len(),
        forall|k: int| 0 <= k < final(entries)@.len() ==> (#[trigger] final(entries)@[k])@ == if old(entries)@[k].name@ == name@ {
            flagged(old(entries)@[k]@, flag)
        } else {
            old(entries)@[k]@
        },
{
    let mut k: usize = 0;
    while k < entries.len()
        invariant
            k <= entries@.len(),
            entries@.len() == old(entries)@.len(),
            forall|m: int| 0 <= m < k ==> (#[trigger] entries@[m])@ == if old(entries)@[m].name@ == name@ {
                flagged(old(entries)@[m]@, flag)
            } else {
                old(entries)@[m]@
            },
            forall|m: int| k <= m < entries@.len() ==> (#[trigger] entries@[m]) == old(entries)@[m],
        decreases entries@.len() - k,
    {
        if crate::text::same_text(entries[k].name.as_str(), name) {
            entries[k].is_selected = flag;
        }
        k = k + 1;
    }
}

/// Clears the selection flag of every entry.
fn unselect_all(entries: &mut Vec<DirEntry>)
    ensures
        final(entries)@.len() == old(entries)@.len(),
        forall|k: int| 0 <= k < final(entries)@.len() ==> (#[trigger] final(entries)@[k])@ == flagged(old(entries)@[k]@, false),
{
    let mut k: usize = 0;
    while k < entries.len()
        invariant
            k <= entries@.len(),
            entries@.len() == old(entries)@.len(),
            forall|m: int| 0 <= m < k ==> (#[trigger] entries@[m])@ == flagged(old(entries)@[m]@, false),
            forall|m: int| k <= m < entries@.len() ==> (#[trigger] entries@[m]) == old(entries)@[m],
        decreases entries@.len() - k,
    {
        entries[k].is_selected = false;
        k = k + 1;
    }
}

/// Flips the selection flag of every entry.
fn flip_all(entries: &mut Vec<DirEntry>)
    ensures
        final(entries)@.len() == old(entries)@.len(),
        forall|k: int| 0 <= k < final(entries)@.len() ==> (#[trigger] final(entries)@[k])@ == flagged(old(entries)@[k]@, !old(entries)@[k].is_selected),
{
    let mut k: usize = 0;
    while k < entries.len()
        invariant
            k <= entries@.len(),
            entries@.len() == old(entries)@.len(),
            forall|m: int| 0 <= m < k ==> (#[trigger] entries@[m])@ == flagged(old(entries)@[m]@, !old(entries)@[m].is_selected),
            forall|m: int| k <= m < entries@.len() ==> (#[trigger] entries@[m]) == old(entries)@[m],
        decreases entries@.len() - k,
    {
        let f = entries[k].is_selected;
        entries[k].is_selected = !f;
        k = k + 1;
    }
}

impl System {
    /// A file manager showing `starting_path` in one tab, from the raw
    /// listings of that directory and of its parent and what was read for
    /// the entry that lands under the cursor; hidden entries show,
    /// entries sort by name, and nothing is selected.
    pub fn new(
        settings: Settings,
        display_settings: DisplaySettings,
        starting_path: FsPath,
        children: Vec<Entry>,
        parent_listing: Vec<Entry>,
        details: EntryDetails,
    ) -> (r: System)
        requires
            display_settings.wf(),
        ensures
            r.wf(),
            r.tabs@.len() == 1,
            r.current_tab_index == 0,
            r.ctx().parent_path@ == starting_path@,
            r.tabs@[0].name@ == tab_name(starting_path@),
            r.selected@.len() == 0,
            r.transfers@.len() == 0,
            r.potential_transfer_data is None,
            r.show_hidden,
            r.sorting_type == SortingType::Lexicographically,
            crate::context::fresh_listing(dir_views(r.ctx().current_siblings@), crate::entry::views_of(children@),
                settings.paint_settings, SortingType::Lexicographically, true, Seq::empty(), Some(starting_path@)),
            crate::context::landing_shown(r.ctx(), details, &display_settings, &settings.paint_settings,
                &SortingType::Lexicographically, true, &r.selected),
            r.ctx().current_index == 0,
    {
        let show_hidden = true;
        let selected: Vec<FsPath> = Vec::new();
        let sorting_type = SortingType::Lexicographically;
        let name = tab_name_from_path(&starting_path);
        let context = Context::generate(
            starting_path, children, parent_listing, details, &display_settings, &settings.paint_settings,
            &sorting_type, show_hidden, &selected,
        );
        let mut tabs: Vec<Tab> = Vec::new();
        tabs.push(Tab { name, context });
        System {
            settings,
            display_settings,
            sorting_type,
            spawn_patterns: generate_spawn_patterns(),
            notification: None,
            transfers: Vec::new(),
            potential_transfer_data: None,
            selected,
            tabs,
            current_tab_index: 0,
            show_hidden,
        }
    }

    /// Flips the selection of the entry under the cursor, in the
    /// selection set and on the entry (and on its copy in the unfiltered
    /// list of a search), then moves the cursor down.
    pub fn select_under_cursor(&mut self)
        requires
            old(self).wf(),
        ensures
            final(self).wf(),
            old(self).ctx().current_path is None ==> *final(self) == *old(self),
            old(self).ctx().current_path is Some ==> {
                let p = old(self).ctx().current_path->0@;
                let k = old(self).ctx().current_index as int;
                &&& selection_has(final(self).selected@, p) == !selection_has(old(self).selected@, p)
                &&& forall|q: Seq<Seq<char>>| q != p ==> selection_has(final(self).selected@, q) == selection_has(old(self).selected@, q)
                &&& final(self).ctx().current_siblings@.len() == old(self).ctx().current_siblings@.len()
                &&& final(self).ctx().current_siblings@[k]@ == flagged(old(self).ctx().current_siblings@[k]@, selection_has(final(self).selected@, p))
                &&& final(self).ctx().current_index == index_after_down(old(self).ctx().current_siblings@.len(), k as nat)
                &&& final(self).ctx().parent_path == old(self).ctx().parent_path
                &&& forall|j: int| 0 <= j < old(self).ctx().current_siblings@.len() && j != k
                    ==> final(self).ctx().current_siblings@[j] == old(self).ctx().current_siblings@[j]
                &&& !selection_has(old(self).selected@, p) ==> final(self).selected@.drop_last() == old(self).selected@
                    && final(self).selected@.len() == old(self).selected@.len() + 1
                    && final(self).selected@.last()@ == p
                &&& selection_has(old(self).selected@, p) ==> exists|m: int| 0 <= m < old(self).selected@.len()
                    && old(self).selected@[m]@ == p && final(self).selected@ == old(self).selected@.remove(m)
            },
    {
        let i = self.current_tab_index;
        let path = match &self.tabs[i].context.current_path {
            Some(p) => p.duplicate(),
            None => {
                return;
            },
        };
        let ghost p = path@;
        let flag = match position_of(&self.selected, &path) {
            Some(k) => {
                let ghost before = self.selected@;
                self.selected.remove(k);
                proof {
                    assert forall|q: Seq<Seq<char>>| selection_has(self.selected@, q) == (selection_has(before, q) && q != p) by {
                        if selection_has(self.selected@, q) {
                            let m = choose|m: int| 0 <= m < self.selected@.len() && #[trigger] self.selected@[m]@ == q;
                            if m < k {
                                assert(before[m] == self.selected@[m]);
                            } else {
                                assert(before[m + 1] == self.selected@[m]);
                            }
                        }
                        if selection_has(before, q) && q != p {
                            let m = choose|m: int| 0 <= m < before.len() && #[trigger] before[m]@ == q;
                            if m < k {
                                assert(self.selected@[m] == before[m]);
                            } else {
                                assert(m != k);
                                assert(self.selected@[m - 1] == before[m]);
                            }
                        }
                    }
                }
                false
            },
            None => {
                let ghost before = self.selected@;
                self.selected.push(path);
                proof {
                    assert(self.selected@[before.len() as int]@ == p);
                    assert forall|q: Seq<Seq<char>>| selection_has(self.selected@, q) == (selection_has(before, q) || q == p) by {
                        if selection_has(before, q) {
                            let m = choose|m: int| 0 <= m < before.len() && #[trigger] before[m]@ == q;
                            assert(self.selected@[m] == before[m]);
                        }
                        if selection_has(self.selected@, q) && q != p {
                            let m = choose|m: int| 0 <= m < self.selected@.len() && #[trigger] self.selected@[m]@ == q;
                            assert(before[m] == self.selected@[m]);
                        }
                    }
                }
                true
            },
        };
        let j = self.tabs[i].context.current_index;
        self.tabs[i].context.current_siblings[j].is_selected = flag;
        let name = crate::text::copy_of(self.tabs[i].context.current_siblings[j].name.as_str());
        if let Some(crate::input_mode::InputMode::Search(tools)) = &mut self.tabs[i].context.input_mode {
            set_selected_by_name(&mut tools.current_siblings_backup, name.as_str(), flag);
        }
        self.down();
    }

    /// Empties the selection and forgets a staged yank or cut; every entry
    /// of the current tab's columns (and of its unfiltered list) shows as
    /// unselected.
    pub fn clear_selection(&mut self)
        requires
            old(self).wf(),
        ensures
            final(self).wf(),
            final(self).selected@.len() == 0,
            final(self).potential_transfer_data is None,
            final(self).tabs@.len() == old(self).tabs@.len(),
            final(self).current_tab_index == old(self).current_tab_index,
            final(self).ctx().current_path == old(self).ctx().current_path,
            final(self).ctx().current_index == old(self).ctx().current_index,
            final(self).ctx().current_siblings@.len() == old(self).ctx().current_siblings@.len(),
            forall|k: int| 0 <= k < final(self).ctx().current_siblings@.len() ==> (#[trigger] final(self).ctx().current_siblings@[k])@
                == flagged(old(self).ctx().current_siblings@[k]@, false),
            final(self).ctx().parent_siblings@.len() == old(self).ctx().parent_siblings@.len(),
            forall|k: int| 0 <= k < final(self).ctx().parent_siblings@.len() ==> !(#[trigger] final(self).ctx().parent_siblings@[k]).is_selected,
            match final(self).ctx().right_column {
                crate::right_column::RightColumn::Siblings(s) => forall|k: int| 0 <= k < s@.len() ==> !(#[trigger] s@[k]).is_selected,
                _ => final(self).ctx().right_column == old(self).ctx().right_column,
            },
            match final(self).ctx().input_mode {
                Some(crate::input_mode::InputMode::Search(t)) => forall|k: int| 0 <= k < t.current_siblings_backup@.len()
                    ==> !(#[trigger] t.current_siblings_backup@[k]).is_selected,
                _ => final(self).ctx().input_mode == old(self).ctx().input_mode,
            },
    {
        self.selected.clear();
        self.potential_transfer_data = None;
        let i = self.current_tab_index;
        unselect_all(&mut self.tabs[i].context.parent_siblings);
        unselect_all(&mut self.tabs[i].context.current_siblings);
        if let crate::right_column::RightColumn::Siblings(siblings) = &mut self.tabs[i].context.right_column {
            unselect_all(siblings);
        }
        if let Some(crate::input_mode::InputMode::Search(tools)) = &mut self.tabs[i].context.input_mode {
            unselect_all(&mut tools.current_siblings_backup);
        }
    }

    /// Inverts the selection within the current column: its selected
    /// entries leave the selection and the others join it; paths outside
    /// the column keep their state.
    pub fn invert_selection(&mut self)
        requires
            old(self).wf(),
        ensures
            final(self).wf(),
            final(self).tabs@.len() == old(self).tabs@.len(),
            final(self).current_tab_index == old(self).current_tab_index,
            final(self).ctx().current_siblings@.len() == old(self).ctx().current_siblings@.len(),
            forall|k: int| 0 <= k < final(self).ctx().current_siblings@.len() ==> (#[trigger] final(self).ctx().current_siblings@[k])@
                == flagged(old(self).ctx().current_siblings@[k]@, !old(self).ctx().current_siblings@[k].is_selected),
            forall|k: int| 0 <= k < old(self).ctx().current_siblings@.len() && !old(self).ctx().current_siblings@[k].is_selected
                ==> selection_has(final(self).selected@, #[trigger] old(self).ctx().parent_path@.push(old(self).ctx().current_siblings@[k].name@)),
            forall|q: Seq<Seq<char>>| (forall|k: int| 0 <= k < old(self).ctx().current_siblings@.len()
                ==> q != #[trigger] old(self).ctx().parent_path@.push(old(self).ctx().current_siblings@[k].name@))
                ==> selection_has(final(self).selected@, q) == selection_has(old(self).selected@, q),
            forall|k: int| 0 <= k < old(self).ctx().current_siblings@.len() && old(self).ctx().current_siblings@[k].is_selected
                && (forall|j: int| 0 <= j < old(self).ctx().current_siblings@.len()
                    && old(self).ctx().current_siblings@[j].name@ == old(self).ctx().current_siblings@[k].name@
                    ==> old(self).ctx().current_siblings@[j].is_selected)
                ==> !selection_has(final(self).selected@, #[trigger] old(self).ctx().parent_path@.push(old(self).ctx().current_siblings@[k].name@)),
            final(self).ctx().parent_siblings == old(self).ctx().parent_siblings,
            final(self).ctx().right_column == old(self).ctx().right_column,
            final(self).ctx().parent_path == old(self).ctx().parent_path,
            final(self).ctx().current_index == old(self).ctx().current_index,
            final(self).ctx().current_path == old(self).ctx().current_path,
    {
        let i = self.current_tab_index;
        let ghost c0 = self.tabs@[i as int].context;
        let ghost sel0 = self.selected@;
        let n = self.tabs[i].context.current_siblings.len();
        let mut k: usize = 0;
        while k < n
            invariant
                self.wf(),
                no_duplicates(self.selected@),
                i == self.current_tab_index,
                self.tabs@[i as int].context == c0,
                self.tabs@.len() == old(self).tabs@.len(),
                n == c0.current_siblings@.len(),
                k <= n,
                forall|m: int| 0 <= m < k && c0.current_siblings@[m].is_selected
                    ==> !selection_has(self.selected@, #[trigger] c0.parent_path@.push(c0.current_siblings@[m].name@)),
                forall|q: Seq<Seq<char>>| (forall|m: int| 0 <= m < n ==> q != #[trigger] c0.parent_path@.push(c0.current_siblings@[m].name@))
                    ==> selection_has(self.selected@, q) == selection_has(sel0, q),
                forall|q: Seq<Seq<char>>| selection_has(self.selected@, q) ==> selection_has(sel0, q),
            decreases n - k,
        {
            if self.tabs[i].context.current_siblings[k].is_selected {
                let path = self.tabs[i].context.parent_path.join(self.tabs[i].context.current_siblings[k].name.as_str());
                if let Some(m) = position_of(&self.selected, &path) {
                    let ghost before = self.selected@;
                    self.selected.remove(m);
                    proof {
                        assert forall|q: Seq<Seq<char>>| selection_has(self.selected@, q) == (selection_has(before, q) && q != path@) by {
                            if selection_has(self.selected@, q) {
                                let x = choose|x: int| 0 <= x < self.selected@.len() && #[trigger] self.selected@[x]@ == q;
                                if x < m {
                                    assert(before[x] == self.selected@[x]);
                                } else {
                                    assert(before[x + 1] == self.selected@[x]);
                                }
                            }
                            if selection_has(before, q) && q != path@ {
                                let x = choose|x: int| 0 <= x < before.len() && #[trigger] before[x]@ == q;
                                if x < m {
                                    assert(self.selected@[x] == before[x]);
                                } else {
                                    assert(self.selected@[x - 1] == before[x]);
                                }
                            }
                        }
                    }
                }
            }
            k = k + 1;
        }
        flip_all(&mut self.tabs[i].context.current_siblings);
        let ghost c1 = self.tabs@[i as int].context;
        let ghost sel1 = self.selected@;
        let mut k: usize = 0;
        while k < n
            invariant
                self.wf(),
                no_duplicates(self.selected@),
                i == self.current_tab_index,
                self.tabs@[i as int].context == c1,
                self.tabs@.len() == old(self).tabs@.len(),
                c1.parent_path == c0.parent_path,
                c1.parent_siblings == c0.parent_siblings,
                c1.right_column == c0.right_column,
                c1.current_index == c0.current_index,
                c1.current_path == c0.current_path,
                c1.current_siblings@.len() == n,
                n == c0.current_siblings@.len(),
                forall|m: int| 0 <= m < n ==> (#[trigger] c1.current_siblings@[m])@ == flagged(c0.current_siblings@[m]@, !c0.current_siblings@[m].is_selected),
                forall|m: int| 0 <= m < n && c0.current_siblings@[m].is_selected
                    ==> !selection_has(sel1, #[trigger] c0.parent_path@.push(c0.current_siblings@[m].name@)),
                forall|q: Seq<Seq<char>>| selection_has(self.selected@, q) ==> selection_has(sel1, q)
                    || exists|m: int| 0 <= m < k && !c0.current_siblings@[m].is_selected
                        && q == #[trigger] c0.parent_path@.push(c0.current_siblings@[m].name@),
                k <= n,
                forall|m: int| 0 <= m < k && !c0.current_siblings@[m].is_selected
                    ==> selection_has(self.selected@, #[trigger] c0.parent_path@.push(c0.current_siblings@[m].name@)),
                forall|q: Seq<Seq<char>>| (forall|m: int| 0 <= m < n ==> q != #[trigger] c0.parent_path@.push(c0.current_siblings@[m].name@))
                    ==> selection_has(self.selected@, q) == selection_has(sel1, q),
            decreases n - k,
        {
            if self.tabs[i].context.current_siblings[k].is_selected {
                let path = self.tabs[i].context.parent_path.join(self.tabs[i].context.current_siblings[k].name.as_str());
                if position_of(&self.selected, &path).is_none() {
                    let ghost before = self.selected@;
                    self.selected.push(path);
                    proof {
                        assert(self.selected@[before.len() as int]@ == path@);
                        assert forall|q: Seq<Seq<char>>| selection_has(self.selected@, q) == (selection_has(before, q) || q == path@) by {
                            if selection_has(before, q) {
                                let x = choose|x: int| 0 <= x < before.len() && #[trigger] before[x]@ == q;
                                assert(self.selected@[x] == before[x]);
                            }
                            if selection_has(self.selected@, q) && q != path@ {
                                let x = choose|x: int| 0 <= x < self.selected@.len() && #[trigger] self.selected@[x]@ == q;
                                assert(before[x] == self.selected@[x]);
                            }
                        }
                    }
                }
                proof {
                    assert(c1.current_siblings@[k as int].name@ == c0.current_siblings@[k as int].name@);
                }
            }
            proof {
                assert forall|q: Seq<Seq<char>>| selection_has(self.selected@, q) implies selection_has(sel1, q)
                    || exists|m: int| 0 <= m < k + 1 && !c0.current_siblings@[m].is_selected
                        && q == #[trigger] c0.parent_path@.push(c0.current_siblings@[m].name@) by {
                    if !selection_has(sel1, q) {
                        if exists|m: int| 0 <= m < k && !c0.current_siblings@[m].is_selected
                            && q == #[trigger] c0.parent_path@.push(c0.current_siblings@[m].name@) {
                            let m = choose|m: int| 0 <= m < k && !c0.current_siblings@[m].is_selected
                                && q == #[trigger] c0.parent_path@.push(c0.current_siblings@[m].name@);
                            assert(0 <= m < k + 1);
                        } else {
                            assert(c1.current_siblings@[k as int]@ == flagged(c0.current_siblings@[k as int]@, !c0.current_siblings@[k as int].is_selected));
                            assert(q == c0.parent_path@.push(c0.current_siblings@[k as int].name@));
                        }
                    }
                }
            }
            k = k + 1;
        }
        let names = self.current_names();
        let ghost sel2 = self.selected@;
        let mut k: usize = 0;
        while k < n
            invariant
                self.wf(),
                no_duplicates(self.selected@),
                self.selected@ == sel2,
                i == self.current_tab_index,
                self.tabs@.len() == old(self).tabs@.len(),
                self.tabs@[i as int].context.current_siblings == c1.current_siblings,
                self.tabs@[i as int].context.parent_siblings == c0.parent_siblings,
                self.tabs@[i as int].context.right_column == c0.right_column,
                self.tabs@[i as int].context.parent_path == c0.parent_path,
                self.tabs@[i as int].context.current_index == c0.current_index,
                self.tabs@[i as int].context.current_path == c0.current_path,
                c1.current_siblings@.len() == n,
                names@.len() == n,
                k <= n,
            decreases n - k,
        {
            let flag = self.tabs[i].context.current_siblings[k].is_selected;
            if let Some(crate::input_mode::InputMode::Search(tools)) = &mut self.tabs[i].context.input_mode {
                set_selected_by_name(&mut tools.current_siblings_backup, names[k].as_str(), flag);
            }
            k = k + 1;
        }
        proof {
            assert forall|x: int| 0 <= x < n && c0.current_siblings@[x].is_selected
                && (forall|j: int| 0 <= j < n && c0.current_siblings@[j].name@ == c0.current_siblings@[x].name@
                    ==> c0.current_siblings@[j].is_selected)
                implies !selection_has(self.selected@, #[trigger] c0.parent_path@.push(c0.current_siblings@[x].name@)) by {
                let q = c0.parent_path@.push(c0.current_siblings@[x].name@);
                if selection_has(self.selected@, q) {
                    if !selection_has(sel1, q) {
                        let m = choose|m: int| 0 <= m < n && !c0.current_siblings@[m].is_selected
                            && q == #[trigger] c0.parent_path@.push(c0.current_siblings@[m].name@);
                        assert(q.last() == c0.current_siblings@[m].name@);
                        assert(q.last() == c0.current_siblings@[x].name@);
                    }
                }
            }
        }
    }

    fn current_names(&self) -> (r: Vec<String>)
        requires
            self.wf(),
        ensures
            r@.len() == self.ctx().current_siblings@.len(),
            forall|k: int| 0 <= k < r@.len() ==> r@[k]@ == self.ctx().current_siblings@[k].name@,
    {
        let c = &self.tabs[self.current_tab_index].context;
        let mut r: Vec<String> = Vec::new();
        let mut k: usize = 0;
        while k < c.current_siblings.len()
            invariant
                k <= c.current_siblings@.len(),
                r@.len() == k,
                forall|m: int| 0 <= m < k ==> r@[m]@ == c.current_siblings@[m].name@,
            decreases c.current_siblings@.len() - k,
        {
            r.push(crate::text::copy_of(c.current_siblings[k].name.as_str()));
            k = k + 1;
        }
        r
    }
}

/// What a paste asks the caller to run: copy or move `source` to
/// `destination`.
pub struct PasteJob {
    pub source: FsPath,
    pub destination: FsPath,
    pub transfer_type: TransferType,
}

/// What the status line says of a transfer: its end, or how far it got.
pub open spec fn progress_text(transfer_type: TransferType, done: bool, percentage: u128) -> Seq<char> {
    match (transfer_type, done) {
        (TransferType::Cut, true) => "Done moving!"@,
        (TransferType::Yank, true) => "Done copying!"@,
        (TransferType::Cut, false) => "Moving...("@ + crate::entry::decimal_text(percentage as nat) + "% done)"@,
        (TransferType::Yank, false) => "Copying...("@ + crate::entry::decimal_text(percentage as nat) + "% done)"@,
    }
}

/// The status line for a transfer.
pub fn notification_text(transfer_type: TransferType, done: bool, percentage: u128) -> (r: String)
    ensures
        r@ == progress_text(transfer_type, done, percentage),
{
    if done {
        match transfer_type {
            TransferType::Cut => crate::text::copy_of("Done moving!"),
            TransferType::Yank => crate::text::copy_of("Done copying!"),
        }
    } else {
        let mut s = match transfer_type {
            TransferType::Cut => crate::text::copy_of("Moving...("),
            TransferType::Yank => crate::text::copy_of("Copying...("),
        };
        let digits = crate::entry::decimal(percentage);
        crate::text::append_str(&mut s, digits.as_str());
        crate::text::append_str(&mut s, "% done)");
        s
    }
}

/// Whether a name is in use for a paste: held by an entry of the
/// directory, or given to an earlier item of the batch.
pub open spec fn name_in_use(listed: Seq<DirEntry>, earlier: Seq<PasteJob>, name: Seq<char>) -> bool {
    (exists|x: int| 0 <= x < listed.len() && #[trigger] listed[x].name@ == name)
        || (exists|j: int| 0 <= j < earlier.len() && #[trigger] earlier[j].destination@.last() == name)
}

/// `dest` is `name` with the fewest underscores appended that make it a
/// name not in use.
pub open spec fn fewest_underscores(listed: Seq<DirEntry>, earlier: Seq<PasteJob>, name: Seq<char>, dest: Seq<char>) -> bool {
    exists|u: nat| {
        &&& dest == crate::transfer::underscored(name, u)
        &&& forall|j: nat| j < u ==> name_in_use(listed, earlier, #[trigger] crate::transfer::underscored(name, j))
    }
}

/// The largest number of tabs.
pub const MAX_TABS: usize = 8;

fn copy_paths(v: &Vec<FsPath>) -> (r: Vec<FsPath>)
    ensures
        r@.len() == v@.len(),
        forall|k: int| 0 <= k < v@.len() ==> (#[trigger] r@[k])@ == v@[k]@,
{
    let mut r: Vec<FsPath> = Vec::new();
    let mut k: usize = 0;
    while k < v.len()
        invariant
            k <= v@.len(),
            r@.len() == k,
            forall|m: int| 0 <= m < k ==> (#[trigger] r@[m])@ == v@[m]@,
        decreases v@.len() - k,
    {
        r.push(v[k].duplicate());
        k = k + 1;
    }
    r
}

impl System {
    /// The paths that a yank, cut or removal acts on: the selection, or
    /// when nothing is selected the entry under the cursor.
    pub open spec fn sources(&self) -> Seq<Seq<Seq<char>>> {
        if self.selected@.len() > 0 {
            self.selected@.map_values(|p: FsPath| p@)
        } else if self.ctx().current_path is Some {
            seq![self.ctx().current_path->0@]
        } else {
            Seq::empty()
        }
    }

    /// The paths that a yank, cut or removal would act on.
    pub fn transfer_sources(&self) -> (r: Vec<FsPath>)
        requires
            self.wf(),
        ensures
            r@.map_values(|p: FsPath| p@) == self.sources(),
    {
        if self.selected.len() > 0 {
            let r = copy_paths(&self.selected);
            assert(r@.map_values(|p: FsPath| p@) =~= self.sources());
            r
        } else {
            let mut r: Vec<FsPath> = Vec::new();
            match &self.tabs[self.current_tab_index].context.current_path {
                Some(p) => r.push(p.duplicate()),
                None => {},
            }
            assert(r@.map_values(|p: FsPath| p@) =~= self.sources());
            r
        }
    }

    fn take_sources(&mut self) -> (r: Vec<FsPath>)
        requires
            old(self).wf(),
        ensures
            final(self).wf(),
            final(self).selected@.len() == 0,
            r@.map_values(|p: FsPath| p@) == old(self).sources(),
            forall|k: int| 0 <= k < r@.len() ==> (#[trigger] r@[k])@.len() > 0,
            final(self).tabs == old(self).tabs,
            final(self).current_tab_index == old(self).current_tab_index,
            final(self).transfers == old(self).transfers,
            final(self).potential_transfer_data == old(self).potential_transfer_data,
            old(self).selected@.len() == 0 ==> *final(self) == *old(self),
    {
        let r = self.transfer_sources();
        proof {
            assert(self.tabs@[self.current_tab_index as int].context.wf());
            assert(r@.map_values(|p: FsPath| p@).len() == r@.len());
            assert(self.selected@.map_values(|p: FsPath| p@).len() == self.selected@.len());
            assert forall|k: int| 0 <= k < r@.len() implies (#[trigger] r@[k])@.len() > 0 by {
                assert(r@.map_values(|p: FsPath| p@)[k] == r@[k]@);
                assert(self.sources()[k] == r@[k]@);
                if self.selected@.len() > 0 {
                    assert(self.selected@.map_values(|p: FsPath| p@)[k] == self.selected@[k]@);
                    assert(self.selected@[k]@.len() > 0);
                }
            }
        }
        if self.selected.len() > 0 {
            self.selected.clear();
        }
        r
    }

    /// Stages a copy of the sources, given their cumulative sizes as the
    /// caller measured them; the selection empties.
    pub fn yank_selected(&mut self, src_sizes: Vec<u64>)
        requires
            old(self).wf(),
            src_sizes@.len() == old(self).sources().len(),
        ensures
            final(self).wf(),
            final(self).selected@.len() == 0,
            old(self).sources().len() > 0 ==> match final(self).potential_transfer_data {
                Some(p) => p.transfer_type == TransferType::Yank && p.src_sizes == src_sizes
                    && p.src_paths@.map_values(|x: FsPath| x@) == old(self).sources(),
                None => false,
            },
            old(self).sources().len() == 0 ==> *final(self) == *old(self),
            final(self).tabs == old(self).tabs,
    {
        self.stage(src_sizes, TransferType::Yank);
    }

    /// Stages a move of the sources, given their cumulative sizes as the
    /// caller measured them; the selection empties.
    pub fn cut_selected(&mut self, src_sizes: Vec<u64>)
        requires
            old(self).wf(),
            src_sizes@.len() == old(self).sources().len(),
        ensures
            final(self).wf(),
            final(self).selected@.len() == 0,
            old(self).sources().len() > 0 ==> match final(self).potential_transfer_data {
                Some(p) => p.transfer_type == TransferType::Cut && p.src_sizes == src_sizes
                    && p.src_paths@.map_values(|x: FsPath| x@) == old(self).sources(),
                None => false,
            },
            old(self).sources().len() == 0 ==> *final(self) == *old(self),
            final(self).tabs == old(self).tabs,
    {
        self.stage(src_sizes, TransferType::Cut);
    }

    fn stage(&mut self, src_sizes: Vec<u64>, transfer_type: TransferType)
        requires
            old(self).wf(),
            src_sizes@.len() == old(self).sources().len(),
        ensures
            final(self).wf(),
            final(self).selected@.len() == 0,
            old(self).sources().len() > 0 ==> match final(self).potential_transfer_data {
                Some(p) => p.transfer_type == transfer_type && p.src_sizes == src_sizes
                    && p.src_paths@.map_values(|x: FsPath| x@) == old(self).sources(),
                None => false,
            },
            old(self).sources().len() == 0 ==> *final(self) == *old(self),
            final(self).tabs == old(self).tabs,
    {
        let sources = self.take_sources();
        if sources.len() > 0 {
            self.potential_transfer_data = Some(PotentialTransfer::new(sources, src_sizes, transfer_type));
        }
    }

    /// Hands the sources over for removal; the selection empties. The
    /// caller removes them and re-reads the directory.
    pub fn remove_selected(&mut self) -> (r: Vec<FsPath>)
        requires
            old(self).wf(),
        ensures
            final(self).wf(),
            final(self).selected@.len() == 0,
            r@.map_values(|p: FsPath| p@) == old(self).sources(),
            final(self).tabs == old(self).tabs,
    {
        self.take_sources()
    }

    /// The current directory's entries as read, before any search filter.
    pub open spec fn unfiltered(&self) -> Seq<DirEntry> {
        match self.ctx().input_mode {
            Some(crate::input_mode::InputMode::Search(t)) => t.current_siblings_backup@,
            _ => self.ctx().current_siblings@,
        }
    }

    /// Starts the staged transfer into the current directory: each source
    /// goes to an entry of its own name there, with `_` appended until the
    /// name is neither in the directory's unfiltered listing nor given to
    /// an earlier source of the batch. Returns the copies or moves for the
    /// caller to run.
    pub fn paste_into_current(&mut self) -> (r: Vec<PasteJob>)
        requires
            old(self).wf(),
        ensures
            final(self).wf(),
            final(self).potential_transfer_data is None,
            final(self).tabs == old(self).tabs,
            final(self).selected == old(self).selected,
            old(self).potential_transfer_data is None ==> r@.len() == 0 && final(self).transfers == old(self).transfers,
            old(self).potential_transfer_data is Some ==> {
                let p = old(self).potential_transfer_data->0;
                let t = final(self).transfers@.last();
                &&& r@.len() == p.src_paths@.len()
                &&& final(self).transfers@.len() == old(self).transfers@.len() + 1
                &&& final(self).transfers@.drop_last() == old(self).transfers@
                &&& t.src_sizes == p.src_sizes
                &&& t.transfer_type == p.transfer_type
                &&& t.dst_paths@.len() == r@.len()
                &&& t.dst_sizes@.len() == r@.len()
                &&& forall|k: int| 0 <= k < r@.len() ==> {
                    &&& (#[trigger] r@[k]).source@ == p.src_paths@[k]@
                    &&& r@[k].transfer_type == p.transfer_type
                    &&& t.dst_paths@[k]@ == r@[k].destination@
                    &&& t.dst_sizes@[k] is None
                    &&& r@[k].destination@.drop_last() == old(self).ctx().parent_path@
                    &&& fewest_underscores(old(self).unfiltered(), r@.subrange(0, k), p.src_paths@[k]@.last(), r@[k].destination@.last())
                    &&& forall|m: int| 0 <= m < old(self).unfiltered().len()
                        ==> old(self).unfiltered()[m].name@ != r@[k].destination@.last()
                    &&& forall|j: int| 0 <= j < k ==> r@[j].destination@.last() != r@[k].destination@.last()
                }
            },
    {
        let data = match self.potential_transfer_data.take() {
            Some(d) => d,
            None => {
                return Vec::new();
            },
        };
        let i = self.current_tab_index;
        let mut taken = match &self.tabs[i].context.input_mode {
            Some(crate::input_mode::InputMode::Search(t)) => crate::transfer::names_of(&t.current_siblings_backup),
            _ => crate::transfer::names_of(&self.tabs[i].context.current_siblings),
        };
        let ghost listed = old(self).unfiltered();
        let ghost n0 = taken@.len();
        let mut jobs: Vec<PasteJob> = Vec::new();
        let mut dst_paths: Vec<FsPath> = Vec::new();
        let mut k: usize = 0;
        while k < data.src_paths.len()
            invariant
                self.wf(),
                i == self.current_tab_index,
                self.current_tab_index == old(self).current_tab_index,
                self.tabs == old(self).tabs,
                listed == old(self).unfiltered(),
                data == old(self).potential_transfer_data->0,
                data.src_paths@.len() == data.src_sizes@.len(),
                forall|m: int| 0 <= m < data.src_paths@.len() ==> (#[trigger] data.src_paths@[m])@.len() > 0,
                k <= data.src_paths@.len(),
                jobs@.len() == k,
                dst_paths@.len() == k,
                n0 == listed.len(),
                taken@.len() == n0 + k,
                forall|m: int| 0 <= m < n0 ==> (#[trigger] taken@[m])@ == listed[m].name@,
                forall|m: int| 0 <= m < k ==> (#[trigger] taken@[n0 + m])@ == jobs@[m].destination@.last(),
                forall|m: int| 0 <= m < k ==> {
                    &&& (#[trigger] jobs@[m]).source@ == data.src_paths@[m]@
                    &&& jobs@[m].transfer_type == data.transfer_type
                    &&& jobs@[m].destination@ == dst_paths@[m]@
                    &&& jobs@[m].destination@.drop_last() == old(self).ctx().parent_path@
                    &&& fewest_underscores(listed, jobs@.subrange(0, m), data.src_paths@[m]@.last(), jobs@[m].destination@.last())
                    &&& forall|x: int| 0 <= x < listed.len() ==> listed[x].name@ != jobs@[m].destination@.last()
                    &&& forall|j: int| 0 <= j < m ==> jobs@[j].destination@.last() != jobs@[m].destination@.last()
                },
            decreases data.src_paths@.len() - k,
        {
            let src = &data.src_paths[k];
            let name = crate::path::file_name(src);
            let dst_name = crate::transfer::destination_name(name.as_str(), &taken);
            let dst = self.tabs[i].context.parent_path.join(dst_name.as_str());
            proof {
                assert(dst@.drop_last() =~= old(self).ctx().parent_path@);
                assert(dst@.last() == dst_name@);
                assert forall|x: int| 0 <= x < listed.len() implies listed[x].name@ != dst_name@ by {
                    if listed[x].name@ == dst_name@ {
                        assert(taken@[x]@ == dst_name@);
                    }
                }
                assert forall|j: int| 0 <= j < k implies jobs@[j].destination@.last() != dst_name@ by {
                    if jobs@[j].destination@.last() == dst_name@ {
                        assert(taken@[n0 + j]@ == dst_name@);
                    }
                }
            }
            proof {
                let u = choose|u: nat| {
                    &&& dst_name@ == crate::transfer::underscored(name@, u)
                    &&& !crate::transfer::name_taken(taken@, dst_name@)
                    &&& forall|j: nat| j < u ==> crate::transfer::name_taken(taken@, #[trigger] crate::transfer::underscored(name@, j))
                };
                assert forall|j: nat| j < u implies name_in_use(listed, jobs@, #[trigger] crate::transfer::underscored(name@, j)) by {
                    let w = crate::transfer::underscored(name@, j);
                    assert(crate::transfer::name_taken(taken@, w));
                    let y = choose|y: int| 0 <= y < taken@.len() && #[trigger] taken@[y]@ == w;
                    if y < n0 {
                        assert(listed[y].name@ == w);
                    } else {
                        assert(taken@[n0 + (y - n0)]@ == jobs@[y - n0].destination@.last());
                        assert(jobs@[y - n0].destination@.last() == w);
                    }
                }
                assert(jobs@.subrange(0, k as int) =~= jobs@);
                assert(fewest_underscores(listed, jobs@.subrange(0, k as int), name@, dst_name@));
            }
            let ghost prev_taken = taken@;
            let ghost prev_jobs = jobs@;
            taken.push(crate::text::copy_of(dst_name.as_str()));
            dst_paths.push(dst.duplicate());
            jobs.push(PasteJob { source: src.duplicate(), destination: dst, transfer_type: data.transfer_type });
            proof {
                assert forall|m: int| 0 <= m < k + 1 implies (#[trigger] taken@[n0 + m])@ == jobs@[m].destination@.last() by {
                    if m < k {
                        assert(taken@[n0 + m] == prev_taken[n0 + m]);
                        assert(jobs@[m] == prev_jobs[m]);
                    }
                }
                assert forall|m: int| 0 <= m < n0 implies (#[trigger] taken@[m])@ == listed[m].name@ by {
                    assert(taken@[m] == prev_taken[m]);
                }
                assert forall|m: int| 0 <= m < k + 1 implies (#[trigger] jobs@.subrange(0, m)) == prev_jobs.subrange(0, m) by {
                    assert(jobs@.subrange(0, m) =~= prev_jobs.subrange(0, m));
                }
            }
            k = k + 1;
        }
        let transfer = data.with_dst_paths(dst_paths);
        self.transfers.push(transfer);
        proof {
            assert(self.transfers@.drop_last() =~= old(self).transfers@);
            assert forall|m: int| 0 <= m < self.transfers@.len() implies (#[trigger] self.transfers@[m]).wf() by {
                if m < old(self).transfers@.len() {
                    assert(self.transfers@[m] == old(self).transfers@[m]);
                }
            }
        }
        jobs
    }

    /// Whether the screen should refresh often, as while transfers run.
    pub fn polling_fast(&self) -> (r: bool)
        ensures
            r == (self.transfers@.len() > 0),
    {
        self.transfers.len() > 0
    }

    /// Takes in the measured sizes of each running transfer's destinations:
    /// settles those that match their sources, shows the progress or the
    /// end of each, and drops the transfers that are complete. Returns
    /// whether the current directory should be re-read.
    pub fn update_transfer_progress(&mut self, measured: Vec<Vec<Option<u64>>>) -> (r: bool)
        requires
            old(self).wf(),
            measured@.len() == old(self).transfers@.len(),
            forall|k: int| 0 <= k < measured@.len() ==> (#[trigger] measured@[k])@.len() == old(self).transfers@[k].dst_sizes@.len(),
        ensures
            final(self).wf(),
            r == (old(self).transfers@.len() > 0),
            final(self).tabs == old(self).tabs,
            final(self).transfers@.len() <= old(self).transfers@.len(),
            forall|k: int| 0 <= k < final(self).transfers@.len() ==> !Transfer::all_settled((#[trigger] final(self).transfers@[k]).dst_sizes@),
            exists|ps: Seq<Transfer>| {
                &&& ps.len() == old(self).transfers@.len()
                &&& forall|k: int| 0 <= k < ps.len() ==> crate::transfer::polled(
                    #[trigger] old(self).transfers@[k], measured@[k]@, ps[k])
                &&& final(self).transfers@ == crate::transfer::unfinished(ps)
                &&& ps.len() > 0 ==> {
                    let last = (ps.len() - 1) as int;
                    &&& final(self).notification is Some
                    &&& final(self).notification->0.show_time_millis == 3000
                    &&& final(self).notification->0.text@ == progress_text(
                        ps[last].transfer_type,
                        Transfer::all_settled(ps[last].dst_sizes@),
                        crate::transfer::progress_percentage(old(self).transfers@[last], measured@[last]@) as u128,
                    )
                }
            },
            old(self).transfers@.len() == 0 ==> final(self).notification == old(self).notification,
    {
        let had_transfers = self.transfers.len() > 0;
        let mut pending: Vec<Transfer> = Vec::new();
        std::mem::swap(&mut pending, &mut self.transfers);
        let mut measured = measured;
        let ghost all_measured = measured@;
        let ghost mut ps: Seq<Transfer> = Seq::empty();
        let ghost total = pending@.len();
        while pending.len() > 0
            invariant
                total == old(self).transfers@.len(),
                all_measured.len() == total,
                ps.len() + pending@.len() == total,
                pending@ == old(self).transfers@.subrange(ps.len() as int, total as int),
                measured@ == all_measured.subrange(ps.len() as int, total as int),
                forall|k: int| 0 <= k < ps.len() ==> crate::transfer::polled(
                    #[trigger] old(self).transfers@[k], all_measured[k]@, ps[k]),
                self.transfers@ == crate::transfer::unfinished(ps),
                ps.len() == 0 ==> self.notification == old(self).notification,
                ps.len() > 0 ==> {
                    let last = (ps.len() - 1) as int;
                    &&& self.notification is Some
                    &&& self.notification->0.show_time_millis == 3000
                    &&& self.notification->0.text@ == progress_text(
                        ps[last].transfer_type,
                        Transfer::all_settled(ps[last].dst_sizes@),
                        crate::transfer::progress_percentage(old(self).transfers@[last], all_measured[last]@) as u128,
                    )
                },
                self.display_settings.wf(),
                self.tabs == old(self).tabs,
                self.current_tab_index == old(self).current_tab_index,
                self.selected == old(self).selected,
                self.potential_transfer_data == old(self).potential_transfer_data,
                measured@.len() == pending@.len(),
                self.transfers@.len() + pending@.len() <= old(self).transfers@.len(),
                forall|k: int| 0 <= k < pending@.len() ==> (#[trigger] pending@[k]).wf(),
                forall|k: int| 0 <= k < measured@.len() ==> (#[trigger] measured@[k])@.len() == pending@[k].dst_sizes@.len(),
                forall|k: int| 0 <= k < self.transfers@.len() ==> (#[trigger] self.transfers@[k]).wf()
                    && !Transfer::all_settled(self.transfers@[k].dst_sizes@),
            decreases pending@.len(),
        {
            proof {
                assert(pending@[0].wf());
                assert(measured@[0]@.len() == pending@[0].dst_sizes@.len());
            }
            let ghost queued = pending@;
            let ghost measured_before = measured@;
            let mut transfer = pending.remove(0);
            let sizes = measured.remove(0);
            proof {
                assert forall|k: int| 0 <= k < pending@.len() implies (#[trigger] pending@[k]).wf() by {
                    assert(pending@[k] == queued[k + 1]);
                }
                assert forall|k: int| 0 <= k < measured@.len() implies (#[trigger] measured@[k])@.len() == pending@[k].dst_sizes@.len() by {
                    assert(measured@[k] == measured_before[k + 1]);
                    assert(pending@[k] == queued[k + 1]);
                }
            }
            let ghost unpolled = transfer;
            proof {
                assert(pending@ =~= old(self).transfers@.subrange(ps.len() as int + 1, total as int));
                assert(measured@ =~= all_measured.subrange(ps.len() as int + 1, total as int));
                assert(unpolled == old(self).transfers@[ps.len() as int]);
                assert(sizes == all_measured[ps.len() as int]);
            }
            let progress = transfer.poll(&sizes);
            let ghost done_poll = transfer;
            let text = notification_text(transfer.transfer_type, progress.done, progress.percentage);
            self.notification = Some(Notification::new(text.as_str(), 3000));
            proof {
                let nps = ps.push(done_poll);
                assert(nps.drop_last() =~= ps);
                assert forall|k: int| 0 <= k < nps.len() implies crate::transfer::polled(
                    #[trigger] old(self).transfers@[k], all_measured[k]@, nps[k]) by {
                    if k < ps.len() {
                        assert(nps[k] == ps[k]);
                    }
                }
                ps = nps;
            }
            if !progress.done {
                let ghost before = self.transfers@;
                self.transfers.push(transfer);
                proof {
                    assert forall|k: int| 0 <= k < self.transfers@.len() implies (#[trigger] self.transfers@[k]).wf()
                        && !Transfer::all_settled(self.transfers@[k].dst_sizes@) by {
                        if k < before.len() {
                            assert(self.transfers@[k] == before[k]);
                        }
                    }
                }
            }
        }
        proof {
            assert(ps.len() == total);
        }
        had_transfers
    }
}

impl System {
    /// Closes the current tab; the index moves back where it fell off the
    /// end. Returns whether no tab is left, which ends the program.
    pub fn close_tab(&mut self) -> (r: bool)
        requires
            old(self).wf(),
        ensures
            final(self).tabs@ == old(self).tabs@.remove(old(self).current_tab_index as int),
            r == (final(self).tabs@.len() == 0),
            r ==> final(self).current_tab_index == 0,
            !r ==> final(self).wf(),
            final(self).selected == old(self).selected,
            !r ==> final(self).current_tab_index == if old(self).current_tab_index < final(self).tabs@.len() {
                old(self).current_tab_index
            } else {
                (final(self).tabs@.len() - 1) as usize
            },
    {
        let ghost before = self.tabs@;
        self.tabs.remove(self.current_tab_index);
        if self.tabs.len() == 0 {
            self.current_tab_index = 0;
        } else if self.current_tab_index >= self.tabs.len() {
            self.current_tab_index = self.tabs.len() - 1;
        }
        proof {
            assert forall|k: int| 0 <= k < self.tabs@.len() implies (#[trigger] self.tabs@[k]).context.wf() by {
                if k < old(self).current_tab_index {
                    assert(self.tabs@[k] == before[k]);
                } else {
                    assert(self.tabs@[k] == before[k + 1]);
                }
            }
        }
        self.tabs.len() == 0
    }

    /// Opens a copy of the current tab at the end of the tab list, up to
    /// the largest number of tabs; the tab being shown leaves any text
    /// entry, a search giving back its unfiltered list.
    pub fn new_tab(&mut self)
        requires
            old(self).wf(),
        ensures
            final(self).wf(),
            final(self).current_tab_index == old(self).current_tab_index,
            final(self).selected == old(self).selected,
            old(self).tabs@.len() >= MAX_TABS ==> *final(self) == *old(self),
            old(self).tabs@.len() < MAX_TABS ==> {
                &&& final(self).tabs@.len() == old(self).tabs@.len() + 1
                &&& final(self).ctx().input_mode is None
                &&& final(self).tabs@.last().name@ == old(self).tabs@[old(self).current_tab_index as int].name@
                &&& crate::context::same_context(old(self).ctx(), final(self).tabs@.last().context)
                &&& Context::input_cancelled(old(self).ctx(), final(self).ctx(), &old(self).display_settings)
                &&& final(self).tabs@.drop_last().len() == old(self).tabs@.len()
                &&& forall|k: int| 0 <= k < old(self).tabs@.len() && k != old(self).current_tab_index
                    ==> final(self).tabs@[k] == old(self).tabs@[k]
            },
    {
        if self.tabs.len() >= MAX_TABS {
            return;
        }
        let i = self.current_tab_index;
        let copy = Tab {
            name: crate::text::copy_of(self.tabs[i].name.as_str()),
            context: self.tabs[i].context.duplicate(),
        };
        let ghost before = self.tabs@;
        self.tabs.push(copy);
        proof {
            assert forall|k: int| 0 <= k < self.tabs@.len() implies (#[trigger] self.tabs@[k]).context.wf() by {
                if k < before.len() {
                    assert(self.tabs@[k] == before[k]);
                }
            }
        }
        self.tabs[i].context.cancel_input(&self.display_settings);
    }

    /// Makes the next tab current, the first after the last. Returns
    /// whether the caller should re-read the new tab's directory, which
    /// it should when there is more than one tab.
    pub fn next_tab(&mut self) -> (r: bool)
        requires
            old(self).wf(),
        ensures
            final(self).wf(),
            final(self).tabs == old(self).tabs,
            final(self).selected == old(self).selected,
            final(self).current_tab_index == if old(self).current_tab_index + 1 == old(self).tabs@.len() {
                0
            } else {
                (old(self).current_tab_index + 1) as usize
            },
            r == (old(self).tabs@.len() > 1),
    {
        if self.current_tab_index == self.tabs.len() - 1 {
            self.current_tab_index = 0;
        } else {
            self.current_tab_index = self.current_tab_index + 1;
        }
        self.tabs.len() > 1
    }

    /// Makes the previous tab current, the last before the first. Returns
    /// whether the caller should re-read the new tab's directory.
    pub fn previous_tab(&mut self) -> (r: bool)
        requires
            old(self).wf(),
        ensures
            final(self).wf(),
            final(self).tabs == old(self).tabs,
            final(self).selected == old(self).selected,
            final(self).current_tab_index == if old(self).current_tab_index == 0 {
                (old(self).tabs@.len() - 1) as usize
            } else {
                (old(self).current_tab_index - 1) as usize
            },
            r == (old(self).tabs@.len() > 1),
    {
        if self.current_tab_index == 0 {
            self.current_tab_index = self.tabs.len() - 1;
        } else {
            self.current_tab_index = self.current_tab_index - 1;
        }
        self.tabs.len() > 1
    }

    /// Drops the notification once its time is over at `now`.
    pub fn update_notification_at(&mut self, now: Millis)
        ensures
            match old(self).notification {
                Some(n) => final(self).notification == if crate::notification::elapsed(n.start_time, now) > n.show_time_millis {
                    None
                } else {
                    Some(n)
                },
                None => final(self).notification is None,
            },
            final(self).tabs == old(self).tabs,
            final(self).transfers == old(self).transfers,
    {
        let finished = match &self.notification {
            Some(n) => n.has_finished_at(now),
            None => false,
        };
        if finished {
            self.notification = None;
        }
    }

    /// Drops the notification once its time is over.
    pub fn update_notification(&mut self)
        ensures
            final(self).notification is None || final(self).notification == old(self).notification,
            old(self).notification is None ==> final(self).notification is None,
            final(self).tabs == old(self).tabs,
            final(self).transfers == old(self).transfers,
    {
        let finished = match &self.notification {
            Some(n) => n.has_finished(),
            None => false,
        };
        if finished {
            self.notification = None;
        }
    }
}

/// How long the main loop waits for a key: briefly while transfers run,
/// so that their progress shows, and longer otherwise.
#[derive(PartialEq, Eq, Structural, Clone, Copy, Debug)]
pub enum DrawingDelay {
    Transfering,
    Regular,
}

impl DrawingDelay {
    /// The wait in milliseconds.
    pub fn ms(&self) -> (r: i32)
        ensures
            r == match *self {
                DrawingDelay::Transfering => 1000i32,
                DrawingDelay::Regular => 5000i32,
            },
    {
        match self {
            DrawingDelay::Transfering => 1000,
            DrawingDelay::Regular => 5000,
        }
    }
}

impl System {
    /// The wait that fits the running transfers.
    pub fn drawing_delay(&self) -> (r: DrawingDelay)
        ensures
            r == if self.transfers@.len() > 0 { DrawingDelay::Transfering } else { DrawingDelay::Regular },
    {
        if self.transfers.len() > 0 {
            DrawingDelay::Transfering
        } else {
            DrawingDelay::Regular
        }
    }
}

} // verus!
