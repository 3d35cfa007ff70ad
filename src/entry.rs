//! What a directory listing says of one item, and how sizes and
//! permissions are written.
use vstd::prelude::*;
use crate::path::FsPath;
use crate::text::{push_char, append_str, copy_of, has_prefix, starts_with};

verus! {

#[derive(PartialEq, Eq, Structural, Clone, Copy, Debug)]
pub enum EntryType {
    Regular,
    Directory,
    Symlink,
    Unknown,
}

/// Read, write and execute bits for owner, group and world, each in `0..8`.
#[derive(PartialEq, Eq, Structural, Clone, Copy, Debug)]
pub struct Permissions {
    pub owner: u32,
    pub group: u32,
    pub world: u32,
    pub is_directory: bool,
    pub is_symlink: bool,
}

/// One item of a directory listing.
pub struct Entry {
    pub entrytype: EntryType,
    pub name: String,
    pub size: u64,
    pub time_modified: u64,
    pub permissions: Permissions,
}

pub ghost struct EntryView {
    pub entrytype: EntryType,
    pub name: Seq<char>,
    pub size: u64,
    pub time_modified: u64,
    pub permissions: Permissions,
}

impl View for Entry {
    type V = EntryView;

    open spec fn view(&self) -> EntryView {
        EntryView {
            entrytype: self.entrytype,
            name: self.name@,
            size: self.size,
            time_modified: self.time_modified,
            permissions: self.permissions,
        }
    }
}

impl Entry {
    /// A copy of the entry.
    pub fn duplicate(&self) -> (r: Entry)
        ensures
            r@ == self@,
    {
        Entry {
            entrytype: self.entrytype,
            name: copy_of(self.name.as_str()),
            size: self.size,
            time_modified: self.time_modified,
            permissions: self.permissions,
        }
    }
}

pub open spec fn permissions_valid(p: Permissions) -> bool {
    p.owner < 8 && p.group < 8 && p.world < 8
}

/// `rwx` with a `-` for each bit that is not set.
pub open spec fn rwx(n: u32) -> Seq<char> {
    seq![
        if n >= 4 { 'r' } else { '-' },
        if n % 4 >= 2 { 'w' } else { '-' },
        if n % 2 == 1 { 'x' } else { '-' },
    ]
}

pub open spec fn permissions_text(p: Permissions) -> Seq<char> {
    seq![if p.is_directory { 'd' } else if p.is_symlink { 'l' } else { '-' }] + rwx(p.owner) + rwx(
        p.group,
    ) + rwx(p.world)
}

impl Permissions {
    /// The ten-character form, as in `drwxr-xr-x`.
    pub fn string_representation(&self) -> (r: String)
        requires
            permissions_valid(*self),
        ensures
            r@ == permissions_text(*self),
    {
        let mut s = String::new();
        push_char(&mut s, if self.is_directory { 'd' } else if self.is_symlink { 'l' } else { '-' });
        let owner = permission_number_to_string_representation(self.owner);
        let group = permission_number_to_string_representation(self.group);
        let world = permission_number_to_string_representation(self.world);
        append_str(&mut s, owner.as_str());
        append_str(&mut s, group.as_str());
        append_str(&mut s, world.as_str());
        assert(s@ =~= permissions_text(*self));
        s
    }

    /// No bits set, neither a directory nor a link.
    pub fn empty() -> (r: Permissions)
        ensures
            r == (Permissions { owner: 0, group: 0, world: 0, is_directory: false, is_symlink: false }),
    {
        Permissions { owner: 0, group: 0, world: 0, is_directory: false, is_symlink: false }
    }
}

/// The three characters for one set of permission bits.
pub fn permission_number_to_string_representation(n: u32) -> (r: String)
    requires
        n < 8,
    ensures
        r@ == rwx(n),
{
    let mut n = n;
    let ghost n0 = n;
    let mut s = String::new();
    if n >= 4 {
        push_char(&mut s, 'r');
        n = n - 4;
    } else {
        push_char(&mut s, '-');
    }
    if n >= 2 {
        push_char(&mut s, 'w');
        n = n - 2;
    } else {
        push_char(&mut s, '-');
    }
    if n >= 1 {
        push_char(&mut s, 'x');
    } else {
        push_char(&mut s, '-');
    }
    assert(s@ =~= rwx(n0));
    s
}

pub open spec fn digit(d: nat) -> char {
    if d == 0 { '0' }
    else if d == 1 { '1' }
    else if d == 2 { '2' }
    else if d == 3 { '3' }
    else if d == 4 { '4' }
    else if d == 5 { '5' }
    else if d == 6 { '6' }
    else if d == 7 { '7' }
    else if d == 8 { '8' }
    else { '9' }
}

/// The decimal digits of a number, without leading zeros.
pub open spec fn decimal_text(n: nat) -> Seq<char>
    decreases n,
{
    if n < 10 {
        seq![digit(n)]
    } else {
        decimal_text(n / 10).push(digit(n % 10))
    }
}

fn digit_char(d: u128) -> (c: char)
    requires
        d < 10,
    ensures
        c == digit(d as nat),
{
    if d == 0 { '0' }
    else if d == 1 { '1' }
    else if d == 2 { '2' }
    else if d == 3 { '3' }
    else if d == 4 { '4' }
    else if d == 5 { '5' }
    else if d == 6 { '6' }
    else if d == 7 { '7' }
    else if d == 8 { '8' }
    else { '9' }
}

/// A number written in decimal.
pub fn decimal(n: u128) -> (r: String)
    ensures
        r@ == decimal_text(n as nat),
    decreases n,
{
    if n < 10 {
        let mut s = String::new();
        push_char(&mut s, digit_char(n));
        assert(s@ =~= decimal_text(n as nat));
        s
    } else {
        let mut s = decimal(n / 10);
        push_char(&mut s, digit_char(n % 10));
        s
    }
}

/// Splits a size of at least 1 KiB into the whole number of its largest
/// unit under 1024, the remainder in the unit below, and the unit's rank
/// (0 for K, 1 for M, ...).
pub open spec fn human_scale(size: nat) -> (nat, nat, nat)
    decreases size,
{
    if size / 1024 < 1024 {
        (size / 1024, size % 1024, 0)
    } else {
        let t = human_scale(size / 1024);
        (t.0, t.1, t.2 + 1)
    }
}

pub open spec fn unit_letter(rank: nat) -> char {
    if rank == 0 { 'K' }
    else if rank == 1 { 'M' }
    else if rank == 2 { 'G' }
    else if rank == 3 { 'T' }
    else { 'P' }
}

/// A size as people read it: `512 B`, `3 K`, `1.5 M`; one decimal, cut
/// rather than rounded, and only where the remainder is not zero.
pub open spec fn human_size_text(size: nat) -> Seq<char> {
    if size < 1024 {
        decimal_text(size) + seq![' ', 'B']
    } else {
        let t = human_scale(size);
        decimal_text(t.0) + (if t.1 != 0 {
            seq!['.'] + decimal_text(t.1 * 10 / 1024)
        } else {
            Seq::empty()
        }) + seq![' ', unit_letter(t.2)]
    }
}

/// The largest size that has a unit letter: 1024 to the sixth power.
pub const HUMAN_SIZE_LIMIT: u64 = 1152921504606846976;

pub open spec fn pow1024(k: nat) -> nat
    decreases k,
{
    if k == 0 { 1 } else { 1024 * pow1024((k - 1) as nat) }
}

proof fn lemma_scale_rank(size: nat, k: nat)
    requires
        k >= 1,
        size < pow1024(k + 1),
    ensures
        human_scale(size).2 < k,
    decreases k,
{
    if size / 1024 >= 1024 {
        let p = pow1024(k);
        assert(size < 1024 * p);
        assert(size / 1024 < p) by (nonlinear_arith)
            requires size < 1024 * p;
        if k == 1 {
            assert(pow1024(0) == 1);
            assert(p == 1024);
        } else {
            lemma_scale_rank(size / 1024, (k - 1) as nat);
        }
    }
}

/// Writes a size in bytes with a unit letter.
pub fn human_size(size: u64) -> (r: String)
    requires
        size < HUMAN_SIZE_LIMIT,
    ensures
        r@ == human_size_text(size as nat),
{
    if size < 1024 {
        let mut s = decimal(size as u128);
        append_str(&mut s, " B");
        proof {
            reveal_strlit(" B");
        }
        return s;
    }
    proof {
        assert(pow1024(0) == 1);
        assert(pow1024(1) == 1024);
        assert(pow1024(2) == 1048576);
        assert(pow1024(3) == 1073741824);
        assert(pow1024(4) == 1099511627776);
        assert(pow1024(5) == 1125899906842624);
        assert(pow1024(6) == 1152921504606846976);
        lemma_scale_rank(size as nat, 5);
    }
    let ghost given_size = size as nat;
    let mut size = size;
    let mut letter_index: usize = 0;
    while size / 1024 >= 1024
        invariant
            size >= 1024,
            human_scale(given_size).0 == human_scale(size as nat).0,
            human_scale(given_size).1 == human_scale(size as nat).1,
            human_scale(given_size).2 == human_scale(size as nat).2 + letter_index,
            human_scale(given_size).2 < 5,
        decreases size,
    {
        letter_index = letter_index + 1;
        size = size / 1024;
    }
    let full = size / 1024;
    let remainder = size % 1024;
    let mut s = decimal(full as u128);
    if remainder != 0 {
        push_char(&mut s, '.');
        let tenth = decimal((remainder * 10 / 1024) as u128);
        append_str(&mut s, tenth.as_str());
    }
    push_char(&mut s, ' ');
    let letter = if letter_index == 0 { 'K' }
        else if letter_index == 1 { 'M' }
        else if letter_index == 2 { 'G' }
        else if letter_index == 3 { 'T' }
        else { 'P' };
    push_char(&mut s, letter);
    assert(s@ =~= human_size_text(given_size));
    s
}

/// Whether a listing shows the entry: hidden names start with a dot.
pub open spec fn shown(e: EntryView, include_hidden: bool) -> bool {
    include_hidden || !has_prefix(e.name, seq!['.'])
}

pub open spec fn shown_entries(s: Seq<EntryView>, include_hidden: bool) -> Seq<EntryView>
    decreases s.len(),
{
    if s.len() == 0 {
        Seq::empty()
    } else if shown(s.last(), include_hidden) {
        shown_entries(s.drop_last(), include_hidden).push(s.last())
    } else {
        shown_entries(s.drop_last(), include_hidden)
    }
}

pub open spec fn views_of(s: Seq<Entry>) -> Seq<EntryView> {
    s.map_values(|e: Entry| e@)
}

/// What a listing of `entries` keeps: the shown entries, and with a
/// `max_count` only the first `max_count + 2` of them.
pub open spec fn listing_of(s: Seq<EntryView>, max_count: Option<usize>, include_hidden: bool) -> Seq<EntryView> {
    let v = shown_entries(s, include_hidden);
    match max_count {
        Some(m) => if m + 2 < v.len() { v.subrange(0, m + 2) } else { v },
        None => v,
    }
}

proof fn lemma_shown_prefix(s: Seq<EntryView>, t: int, include_hidden: bool)
    requires
        0 <= t <= s.len(),
    ensures
        shown_entries(s.subrange(0, t), include_hidden).len() <= shown_entries(s, include_hidden).len(),
        shown_entries(s.subrange(0, t), include_hidden) == shown_entries(s, include_hidden).subrange(
            0,
            shown_entries(s.subrange(0, t), include_hidden).len() as int,
        ),
    decreases s.len(),
{
    if t == s.len() {
        assert(s.subrange(0, t) =~= s);
        assert(shown_entries(s, include_hidden).subrange(0, shown_entries(s, include_hidden).len() as int)
            =~= shown_entries(s, include_hidden));
    } else {
        lemma_shown_prefix(s.drop_last(), t, include_hidden);
        assert(s.drop_last().subrange(0, t) =~= s.subrange(0, t));
        let a = shown_entries(s.subrange(0, t), include_hidden);
        let b = shown_entries(s.drop_last(), include_hidden);
        assert(b.push(s.last()).subrange(0, a.len() as int) =~= b.subrange(0, a.len() as int));
    }
}

/// Keeps, in order, the entries that a listing shows.
pub fn select_listing(entries: Vec<Entry>, max_count: Option<usize>, include_hidden: bool) -> (r: Vec<Entry>)
    ensures
        views_of(r@) == listing_of(views_of(entries@), max_count, include_hidden),
{
    let mut entries = entries;
    let ghost all = views_of(entries@);
    let mut kept: Vec<Entry> = Vec::new();
    let mut taken: usize = 0;
    let mut full = false;
    let n0: usize = entries.len();
    let dot = ".";
    proof {
        reveal_strlit(".");
    }
    while entries.len() > 0 && !full
        invariant
            dot@ == seq!['.'],
            taken <= all.len(),
            all.len() == n0,
            taken + entries@.len() == n0,
            views_of(entries@) == all.subrange(taken as int, all.len() as int),
            views_of(kept@) == shown_entries(all.subrange(0, taken as int), include_hidden),
            match max_count {
                Some(m) => kept@.len() <= m + 2 && (full <==> kept@.len() == m + 2),
                None => !full,
            },
        decreases entries@.len(),
    {
        let ghost before = entries@;
        proof {
            assert(views_of(before).len() == before.len());
            assert(views_of(before)[0] == all[taken as int]);
        }
        let e = entries.remove(0);
        let show = include_hidden || !starts_with(e.name.as_str(), dot);
        proof {
            assert(e == before[0]);
            assert(entries@ =~= before.subrange(1, before.len() as int));
            assert(views_of(entries@) =~= views_of(before).subrange(1, before.len() as int));
            assert(all.subrange(0, taken + 1).drop_last() =~= all.subrange(0, taken as int));
        }
        if show {
            kept.push(e);
        }
        taken = taken + 1;
        proof {
            assert(views_of(kept@) =~= shown_entries(all.subrange(0, taken as int), include_hidden));
            assert(views_of(entries@) =~= all.subrange(taken as int, all.len() as int));
        }
        match max_count {
            Some(m) => {
                if kept.len() >= 2 && kept.len() - 2 >= m {
                    full = true;
                }
            },
            None => {},
        }
    }
    proof {
        lemma_shown_prefix(all, taken as int, include_hidden);
        if taken == all.len() {
            assert(all.subrange(0, taken as int) =~= all);
        }
        let v = shown_entries(all, include_hidden);
        let k = views_of(kept@);
        assert(views_of(kept@) =~= listing_of(all, max_count, include_hidden));
    }
    kept
}

/// The entries beside `path` in its parent directory, given the raw
/// listing of that parent; the root stands alone.
pub fn collect_siblings_of(path: &FsPath, listing_of_parent: Vec<Entry>, include_hidden: bool) -> (r: Vec<Entry>)
    ensures
        path@.len() == 0 ==> views_of(r@) == seq![root_entry()],
        path@.len() > 0 ==> views_of(r@) == listing_of(views_of(listing_of_parent@), None, include_hidden),
{
    if path.parts.len() == 0 {
        proof {
            reveal_strlit("/");
        }
        let mut v: Vec<Entry> = Vec::new();
        let e = Entry {
            entrytype: EntryType::Directory,
            name: copy_of("/"),
            size: 4096,
            time_modified: 0,
            permissions: Permissions::empty(),
        };
        assert(e@.name =~= seq!['/']);
        v.push(e);
        assert(views_of(v@) =~= seq![root_entry()]);
        v
    } else {
        select_listing(listing_of_parent, None, include_hidden)
    }
}

/// The entry that stands for the root among its own siblings.
pub open spec fn root_entry() -> EntryView {
    EntryView {
        entrytype: EntryType::Directory,
        name: seq!['/'],
        size: 4096,
        time_modified: 0,
        permissions: Permissions { owner: 0, group: 0, world: 0, is_directory: false, is_symlink: false },
    }
}

/// Permissions from the mode bits of a file's metadata: the low three
/// octal digits are world, group and owner; what is neither a file nor a
/// directory counts as a link.
pub fn permissions_from_mode(mode: u32, is_file: bool, is_directory: bool) -> (r: Permissions)
    ensures
        r.world == mode % 8,
        r.group == (mode / 8) % 8,
        r.owner == (mode / 64) % 8,
        r.is_directory == is_directory,
        r.is_symlink == !(is_file || is_directory),
        permissions_valid(r),
{
    Permissions {
        owner: (mode / 64) % 8,
        group: (mode / 8) % 8,
        world: mode % 8,
        is_directory,
        is_symlink: !(is_file || is_directory),
    }
}

/// The kind of a listed item from what its file type says.
pub fn entry_type_of(is_file: bool, is_dir: bool, is_symlink: bool) -> (r: EntryType)
    ensures
        r == if is_file {
            EntryType::Regular
        } else if is_dir {
            EntryType::Directory
        } else if is_symlink {
            EntryType::Symlink
        } else {
            EntryType::Unknown
        },
{
    if is_file {
        EntryType::Regular
    } else if is_dir {
        EntryType::Directory
    } else if is_symlink {
        EntryType::Symlink
    } else {
        EntryType::Unknown
    }
}

} // verus!
