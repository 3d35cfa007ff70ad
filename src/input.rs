//! Keys, commands, and the table that maps key combinations to commands,
//! with the incremental matching of typed keys against it.
use vstd::prelude::*;
use crate::entry::{decimal, decimal_text};
use crate::text::{has_prefix, starts_with, copy_of, append_str, push_char};

verus! {

#[derive(PartialEq, Eq, Structural, Clone, Copy, Debug)]
pub enum Input {
    Unknown,
    EventResize,
    Char(char),
    Tab,
    ShiftTab,
    Enter,
    Escape,
    Backspace,
    Delete,
    Left,
    Right,
}

#[derive(PartialEq, Eq, Structural, Clone, Copy, Debug)]
pub enum SortingType {
    Lexicographically,
    TimeModified,
    Any,
}

/// A sequence of typed characters, or one special key.
pub enum Combination {
    Str(String),
    Tab,
    ShiftTab,
    Enter,
}

pub ghost enum Keys {
    Str(Seq<char>),
    Tab,
    ShiftTab,
    Enter,
}

impl View for Combination {
    type V = Keys;

    open spec fn view(&self) -> Keys {
        match self {
            Combination::Str(s) => Keys::Str(s@),
            Combination::Tab => Keys::Tab,
            Combination::ShiftTab => Keys::ShiftTab,
            Combination::Enter => Keys::Enter,
        }
    }
}

impl Combination {
    /// A copy of the combination.
    pub fn duplicate(&self) -> (r: Combination)
        ensures
            r@ == self@,
    {
        match self {
            Combination::Str(s) => Combination::Str(copy_of(s.as_str())),
            Combination::Tab => Combination::Tab,
            Combination::ShiftTab => Combination::ShiftTab,
            Combination::Enter => Combination::Enter,
        }
    }

    /// Whether two combinations are the same keys.
    pub fn same(&self, other: &Combination) -> (r: bool)
        ensures
            r == (self@ == other@),
    {
        match (self, other) {
            (Combination::Str(a), Combination::Str(b)) => *a == *b,
            (Combination::Tab, Combination::Tab) => true,
            (Combination::ShiftTab, Combination::ShiftTab) => true,
            (Combination::Enter, Combination::Enter) => true,
            _ => false,
        }
    }
}

fn regular(chars: &str) -> (r: Combination)
    ensures
        r@ == Keys::Str(chars@),
{
    Combination::Str(copy_of(chars))
}

#[derive(Clone, Copy, Debug)]
pub enum Command {
    GoTo(&'static str),
    Up(u32),
    Down(u32),
    Left,
    Right,
    Sort(SortingType),
    Remove,
    Cut,
    Update,
    Yank,
    Paste,
    CumulativeSize,
    SelectUnderCursor,
    InvertSelection,
    ClearSelection,
    NewTab,
    CloseTab,
    NextTab,
    PreviousTab,
    ChangeCurrentName,
    EnterSearchMode,
}

/// The longest key sequence that the table holds.
pub fn max_combination_len() -> (r: usize)
    ensures
        r == 5,
{
    5
}

/// A combination and the command it stands for.
pub type Match = (Combination, Command);

/// The table of combinations, in the order they were registered.
pub type Matches = Vec<Match>;

pub open spec fn match_view(m: Match) -> (Keys, Command) {
    (m.0@, m.1)
}

pub open spec fn matches_view(ms: Seq<Match>) -> Seq<(Keys, Command)> {
    ms.map_values(|m: Match| match_view(m))
}

pub open spec fn str_keys(s: &str) -> Keys {
    Keys::Str(s@)
}

/// Every combination that the program knows, with its command.
pub open spec fn command_table() -> Seq<(Keys, Command)> {
    seq![
        (str_keys("h"), Command::Left),
        (str_keys("j"), Command::Down(1)),
        (str_keys("k"), Command::Up(1)),
        (str_keys("l"), Command::Right),
        (str_keys("K"), Command::Up(5)),
        (str_keys("J"), Command::Down(5)),
        (str_keys("sl"), Command::Sort(SortingType::Lexicographically)),
        (str_keys("st"), Command::Sort(SortingType::TimeModified)),
        (str_keys("sa"), Command::Sort(SortingType::Any)),
        (str_keys("gh"), Command::GoTo("/home/igorek/")),
        (str_keys("gd"), Command::GoTo("/home/igorek/Downloads")),
        (str_keys("gs"), Command::GoTo("/home/igorek/Studying")),
        (str_keys("gS"), Command::GoTo("/home/igorek/Storage")),
        (str_keys("gT"), Command::GoTo("/home/igorek/Storage/torrents")),
        (str_keys("gc"), Command::GoTo("/home/igorek/screenshots")),
        (str_keys("gt"), Command::GoTo("/home/igorek/Stuff")),
        (str_keys("gm"), Command::GoTo("/home/igorek/Mutual")),
        (str_keys("ge"), Command::GoTo("/mnt/External")),
        (str_keys("gE"), Command::GoTo("/mnt/External2")),
        (str_keys("dd"), Command::Remove),
        (str_keys("dc"), Command::Cut),
        (str_keys("yy"), Command::Yank),
        (str_keys("pp"), Command::Paste),
        (str_keys("u"), Command::Update),
        (str_keys("cs"), Command::CumulativeSize),
        (str_keys("v"), Command::SelectUnderCursor),
        (str_keys("V"), Command::InvertSelection),
        (str_keys("cc"), Command::ClearSelection),
        (Keys::Tab, Command::NextTab),
        (Keys::ShiftTab, Command::PreviousTab),
        (str_keys("q"), Command::CloseTab),
        (str_keys("t"), Command::NewTab),
        (str_keys("/"), Command::EnterSearchMode),
    ]
}

fn register(table: &mut Matches, combination: Combination, command: Command)
    ensures
        matches_view(final(table)@) == matches_view(old(table)@).push((combination@, command)),
{
    let ghost prev = table@;
    table.push((combination, command));
    assert(matches_view(table@) =~= matches_view(prev).push((combination@, command)));
}

/// Builds the table of every combination and its command.
pub fn generate_possible_inputs() -> (r: Matches)
    ensures
        matches_view(r@) == command_table(),
{
    let mut inputs: Matches = Vec::new();
    assert(matches_view(inputs@) =~= Seq::<(Keys, Command)>::empty());
    register(&mut inputs, regular("h"), Command::Left);
    register(&mut inputs, regular("j"), Command::Down(1));
    register(&mut inputs, regular("k"), Command::Up(1));
    register(&mut inputs, regular("l"), Command::Right);
    register(&mut inputs, regular("K"), Command::Up(5));
    register(&mut inputs, regular("J"), Command::Down(5));
    register(&mut inputs, regular("sl"), Command::Sort(SortingType::Lexicographically));
    register(&mut inputs, regular("st"), Command::Sort(SortingType::TimeModified));
    register(&mut inputs, regular("sa"), Command::Sort(SortingType::Any));
    register(&mut inputs, regular("gh"), Command::GoTo("/home/igorek/"));
    register(&mut inputs, regular("gd"), Command::GoTo("/home/igorek/Downloads"));
    register(&mut inputs, regular("gs"), Command::GoTo("/home/igorek/Studying"));
    register(&mut inputs, regular("gS"), Command::GoTo("/home/igorek/Storage"));
    register(&mut inputs, regular("gT"), Command::GoTo("/home/igorek/Storage/torrents"));
    register(&mut inputs, regular("gc"), Command::GoTo("/home/igorek/screenshots"));
    register(&mut inputs, regular("gt"), Command::GoTo("/home/igorek/Stuff"));
    register(&mut inputs, regular("gm"), Command::GoTo("/home/igorek/Mutual"));
    register(&mut inputs, regular("ge"), Command::GoTo("/mnt/External"));
    register(&mut inputs, regular("gE"), Command::GoTo("/mnt/External2"));
    register(&mut inputs, regular("dd"), Command::Remove);
    register(&mut inputs, regular("dc"), Command::Cut);
    register(&mut inputs, regular("yy"), Command::Yank);
    register(&mut inputs, regular("pp"), Command::Paste);
    register(&mut inputs, regular("u"), Command::Update);
    register(&mut inputs, regular("cs"), Command::CumulativeSize);
    register(&mut inputs, regular("v"), Command::SelectUnderCursor);
    register(&mut inputs, regular("V"), Command::InvertSelection);
    register(&mut inputs, regular("cc"), Command::ClearSelection);
    register(&mut inputs, Combination::Tab, Command::NextTab);
    register(&mut inputs, Combination::ShiftTab, Command::PreviousTab);
    register(&mut inputs, regular("q"), Command::CloseTab);
    register(&mut inputs, regular("t"), Command::NewTab);
    register(&mut inputs, regular("/"), Command::EnterSearchMode);
    assert(matches_view(inputs@) =~= command_table());
    inputs
}

/// Whether the registered keys `entry` are what `typed` asks for: the same
/// special key, or characters that begin with the typed ones.
pub open spec fn extends(entry: Keys, typed: Keys) -> bool {
    match (entry, typed) {
        (Keys::Str(e), Keys::Str(t)) => t.len() > 0 && has_prefix(e, t),
        (Keys::Tab, Keys::Tab) => true,
        (Keys::ShiftTab, Keys::ShiftTab) => true,
        (Keys::Enter, Keys::Enter) => true,
        _ => false,
    }
}

/// The entries of the table that the typed keys may still become, in
/// table order.
pub open spec fn candidates(table: Seq<(Keys, Command)>, typed: Keys) -> Seq<(Keys, Command)>
    decreases table.len(),
{
    if table.len() == 0 {
        Seq::empty()
    } else if extends(table.last().0, typed) {
        candidates(table.drop_last(), typed).push(table.last())
    } else {
        candidates(table.drop_last(), typed)
    }
}

fn extends_exec(entry: &Combination, typed: &Combination) -> (r: bool)
    ensures
        r == extends(entry@, typed@),
{
    match (entry, typed) {
        (Combination::Str(e), Combination::Str(t)) => t.unicode_len() > 0 && starts_with(e.as_str(), t.as_str()),
        (Combination::Tab, Combination::Tab) => true,
        (Combination::ShiftTab, Combination::ShiftTab) => true,
        (Combination::Enter, Combination::Enter) => true,
        _ => false,
    }
}

/// The entries of the table that the typed keys may still become.
pub fn matches_for(table: &Matches, combination: &Combination) -> (r: Vec<Match>)
    ensures
        matches_view(r@) == candidates(matches_view(table@), combination@),
{
    let mut r: Vec<Match> = Vec::new();
    let mut i: usize = 0;
    while i < table.len()
        invariant
            i <= table@.len(),
            matches_view(r@) == candidates(matches_view(table@).subrange(0, i as int), combination@),
        decreases table@.len() - i,
    {
        let ghost prev = r@;
        proof {
            let t = matches_view(table@).subrange(0, i + 1);
            assert(t.drop_last() =~= matches_view(table@).subrange(0, i as int));
            assert(t.last() == match_view(table@[i as int]));
        }
        if extends_exec(&table[i].0, combination) {
            let m = (table[i].0.duplicate(), table[i].1);
            r.push(m);
            assert(matches_view(r@) =~= matches_view(prev).push(match_view(m)));
        }
        i = i + 1;
    }
    assert(matches_view(table@).subrange(0, i as int) =~= matches_view(table@));
    r
}

/// Whether the candidates are one entry whose keys are exactly the input.
pub fn exact_match(matches: &Vec<Match>, input: &Combination) -> (r: bool)
    ensures
        r == (matches@.len() == 1 && matches@[0].0@ == input@),
{
    matches.len() == 1 && matches[0].0.same(input)
}

/// The combination after one more key: a character joins the typed ones,
/// a tab key stands alone, and any other key ends the combination.
pub open spec fn extended(current: Option<Keys>, input: Input) -> Option<Keys> {
    match input {
        Input::Tab => Some(Keys::Tab),
        Input::ShiftTab => Some(Keys::ShiftTab),
        Input::Char(c) => match current {
            Some(Keys::Str(s)) => Some(Keys::Str(s.push(c))),
            _ => Some(Keys::Str(seq![c])),
        },
        _ => None,
    }
}

pub open spec fn opt_keys(o: Option<Combination>) -> Option<Keys> {
    match o {
        Some(c) => Some(c@),
        None => None,
    }
}

/// Adds a key to the combination being typed.
pub fn extend_combination(current: Option<Combination>, input: Input) -> (r: Option<Combination>)
    ensures
        opt_keys(r) == extended(opt_keys(current), input),
{
    match input {
        Input::Tab => Some(Combination::Tab),
        Input::ShiftTab => Some(Combination::ShiftTab),
        Input::Char(c) => match current {
            Some(Combination::Str(s)) => {
                let mut s = s;
                push_char(&mut s, c);
                Some(Combination::Str(s))
            },
            _ => {
                let mut s = String::new();
                push_char(&mut s, c);
                assert(s@ =~= seq![c]);
                Some(Combination::Str(s))
            },
        },
        _ => None,
    }
}

/// What typing a combination does: with no candidate it is dropped; with
/// one candidate that is exactly it, its command fires and typing starts
/// over; else it waits for more keys.
pub open spec fn resolve(table: Seq<(Keys, Command)>, typed: Keys) -> (Option<Keys>, Option<Command>) {
    let c = candidates(table, typed);
    if c.len() == 0 {
        (None, None)
    } else if c.len() == 1 && c[0].0 == typed {
        (None, Some(c[0].1))
    } else {
        (Some(typed), None)
    }
}

/// Looks the combination up: returns what is still being typed and the
/// command that fired, if any.
pub fn handle_combination(table: &Matches, combination: Option<Combination>) -> (r: (Option<Combination>, Option<Command>))
    ensures
        combination is None ==> r.0 is None && r.1 is None,
        combination is Some ==> (opt_keys(r.0), r.1) == resolve(matches_view(table@), combination->0@),
{
    if let Some(combination) = combination {
        let matches = matches_for(table, &combination);
        assert(matches_view(matches@).len() == matches@.len());
        if matches.len() == 0 {
            return (None, None);
        }
        if !exact_match(&matches, &combination) {
            proof {
                if matches@.len() == 1 {
                    assert(matches_view(matches@)[0].0 == matches@[0].0@);
                }
            }
            return (Some(combination), None);
        }
        assert(matches_view(matches@)[0] == match_view(matches@[0]));
        let command = matches[0].1;
        (None, Some(command))
    } else {
        (None, None)
    }
}

/// One typed key: extend the pending combination, then resolve it.
pub open spec fn feed(table: Seq<(Keys, Command)>, pending: Option<Keys>, c: char) -> (Option<Keys>, Option<Command>) {
    resolve(table, extended(pending, Input::Char(c)).unwrap())
}

/// Typing the characters one by one from nothing pending: what is left
/// pending, and the commands fired on the way.
pub open spec fn feed_all(table: Seq<(Keys, Command)>, s: Seq<char>) -> (Option<Keys>, Seq<Command>)
    decreases s.len(),
{
    if s.len() == 0 {
        (None, Seq::empty())
    } else {
        let before = feed_all(table, s.drop_last());
        let after = feed(table, before.0, s.last());
        (after.0, match after.1 {
            Some(cmd) => before.1.push(cmd),
            None => before.1,
        })
    }
}

proof fn lemma_candidates_member(table: Seq<(Keys, Command)>, typed: Keys, k: int)
    requires
        0 <= k < table.len(),
        extends(table[k].0, typed),
    ensures
        candidates(table, typed).contains(table[k]),
    decreases table.len(),
{
    if k < table.len() - 1 {
        lemma_candidates_member(table.drop_last(), typed, k);
        assert(table.drop_last()[k] == table[k]);
        let c = candidates(table.drop_last(), typed);
        if extends(table.last().0, typed) {
            let i = choose|i: int| 0 <= i < c.len() && c[i] == table[k];
            assert(c.push(table.last())[i] == table[k]);
        }
    } else {
        let c = candidates(table.drop_last(), typed);
        assert(c.push(table.last())[c.len() as int] == table[k]);
    }
}

proof fn lemma_candidates_sub(table: Seq<(Keys, Command)>, p: Seq<char>, c: char)
    requires
        p.len() > 0,
    ensures
        candidates(table, Keys::Str(p.push(c))).len() <= candidates(table, Keys::Str(p)).len(),
        forall|x: (Keys, Command)| candidates(table, Keys::Str(p.push(c))).contains(x) ==> candidates(table, Keys::Str(p)).contains(x),
    decreases table.len(),
{
    if table.len() > 0 {
        lemma_candidates_sub(table.drop_last(), p, c);
        let a = candidates(table.drop_last(), Keys::Str(p.push(c)));
        let b = candidates(table.drop_last(), Keys::Str(p));
        if let Keys::Str(e) = table.last().0 {
            if has_prefix(e, p.push(c)) {
                assert(e.subrange(0, p.len() as int) =~= p.push(c).subrange(0, p.len() as int));
                assert(p.push(c).subrange(0, p.len() as int) =~= p);
            }
        }
        assert forall|x: (Keys, Command)| candidates(table, Keys::Str(p.push(c))).contains(x) implies candidates(table, Keys::Str(p)).contains(x) by {
            if extends(table.last().0, Keys::Str(p.push(c))) {
                let i = choose|i: int| 0 <= i < a.len() + 1 && a.push(table.last())[i] == x;
                if i < a.len() {
                    assert(a.contains(x));
                    assert(b.contains(x));
                    let j = choose|j: int| 0 <= j < b.len() && b[j] == x;
                    assert(b.push(table.last())[j] == x);
                } else {
                    assert(b.push(table.last())[b.len() as int] == x);
                }
            } else {
                assert(a.contains(x));
                assert(b.contains(x));
                let j = choose|j: int| 0 <= j < b.len() && b[j] == x;
                if extends(table.last().0, Keys::Str(p)) {
                    assert(b.push(table.last())[j] == x);
                }
            }
        }
    }
}

/// Typing the exact characters of a combination that no other entry of
/// the table begins with fires its command once, at the last character,
/// and leaves nothing pending.
pub proof fn lemma_feeding_exact_combination_fires(table: Seq<(Keys, Command)>, k: int, s: Seq<char>)
    requires
        0 <= k < table.len(),
        table[k].0 == Keys::Str(s),
        s.len() > 0,
        candidates(table, Keys::Str(s)) == seq![table[k]],
    ensures
        feed_all(table, s) == (None::<Keys>, seq![table[k].1]),
{
    lemma_feeding_prefix_waits(table, k, s, (s.len() - 1) as int);
    let q = s.subrange(0, s.len() - 1);
    assert(s.drop_last() =~= q);
    if q.len() == 0 {
        assert(seq![s.last()] =~= s);
    } else {
        assert(q.push(s.last()) =~= s);
    }
    assert(Seq::<Command>::empty().push(table[k].1) =~= seq![table[k].1]);
}

/// Typing a proper prefix of a registered combination fires nothing and
/// keeps the whole prefix pending.
pub proof fn lemma_feeding_prefix_waits(table: Seq<(Keys, Command)>, k: int, s: Seq<char>, n: int)
    requires
        0 <= k < table.len(),
        table[k].0 == Keys::Str(s),
        0 <= n < s.len(),
    ensures
        feed_all(table, s.subrange(0, n)) == (if n == 0 { None } else { Some(Keys::Str(s.subrange(0, n))) }, Seq::<Command>::empty()),
    decreases n,
{
    if n > 0 {
        let q = s.subrange(0, n);
        lemma_feeding_prefix_waits(table, k, s, n - 1);
        assert(q.drop_last() =~= s.subrange(0, n - 1));
        if n - 1 == 0 {
            assert(seq![q.last()] =~= q);
        } else {
            assert(s.subrange(0, n - 1).push(q.last()) =~= q);
        }
        assert(s.subrange(0, n) =~= q);
        assert(has_prefix(s, q));
        lemma_candidates_member(table, Keys::Str(q), k);
        let c = candidates(table, Keys::Str(q));
        assert(c.len() > 0);
        if c.len() == 1 {
            assert(c[0] == table[k]);
            assert(Keys::Str(s) != Keys::Str(q)) by {
                assert(s.len() != q.len());
            }
        }
    } else {
        assert(s.subrange(0, 0) =~= Seq::<char>::empty());
    }
}

/// While two or more entries begin with the typed characters nothing
/// fires, and typing one more character never adds a candidate.
pub proof fn lemma_shared_prefix_narrows(table: Seq<(Keys, Command)>, p: Seq<char>, c: char)
    requires
        p.len() > 0,
    ensures
        candidates(table, Keys::Str(p)).len() >= 2 ==> resolve(table, Keys::Str(p)) == (Some(Keys::Str(p)), None::<Command>),
        candidates(table, Keys::Str(p.push(c))).len() <= candidates(table, Keys::Str(p)).len(),
        forall|x: (Keys, Command)| candidates(table, Keys::Str(p.push(c))).contains(x) ==> candidates(table, Keys::Str(p)).contains(x),
{
    lemma_candidates_sub(table, p, c);
}

pub open spec fn sorting_name(t: SortingType) -> Seq<char> {
    match t {
        SortingType::Lexicographically => "Lexicographically"@,
        SortingType::TimeModified => "TimeModified"@,
        SortingType::Any => "Any"@,
    }
}

pub open spec fn description(command: Command) -> Seq<char> {
    match command {
        Command::GoTo(path) => "Go to "@ + path@,
        Command::Up(n) => "Navigate up one entry in the list "@ + decimal_text(n as nat) + " times"@,
        Command::Down(n) => "Navigate down one entry in the list "@ + decimal_text(n as nat) + " times"@,
        Command::Left => "Navigate to the parent directory"@,
        Command::Right => "Navigate into the child directory or file"@,
        Command::Sort(t) => "Sort entries "@ + sorting_name(t),
        Command::Remove => "Remove selected entry(ies) from the filesystem"@,
        Command::Update => "Update the current directory"@,
        Command::Yank => "Yank selected entries into buffer"@,
        Command::Cut => "Cut selected entries into buffer"@,
        Command::Paste => "Paste the yanked entry into the current directory"@,
        Command::CumulativeSize => "Calculate the cumulative size of current entry"@,
        Command::SelectUnderCursor => "Flips the selection for the entry under cursor"@,
        Command::InvertSelection => "Inverts the selection in the current directory"@,
        Command::ClearSelection => "Clears the list of selected items and the buffer of yanked or cut items"@,
        Command::NewTab => "Creates a new tab that is a clone of the current one"@,
        Command::CloseTab => "Closes current Tab. If it is the last tab then closes the program"@,
        Command::NextTab => "Selects the next Tab (if any) as the new current tab"@,
        Command::PreviousTab => "Selects the previous Tab (if any) as the new current tab"@,
        Command::ChangeCurrentName => "Change the name of the current entry"@,
        Command::EnterSearchMode => "Go inside the search bar to edit the query"@,
    }
}

fn joined2(a: &str, b: &str) -> (r: String)
    ensures
        r@ == a@ + b@,
{
    let mut s = copy_of(a);
    append_str(&mut s, b);
    s
}

fn joined3(a: &str, b: &str, c: &str) -> (r: String)
    ensures
        r@ == a@ + b@ + c@,
{
    let mut s = copy_of(a);
    append_str(&mut s, b);
    append_str(&mut s, c);
    s
}

/// What a command does, in words.
pub fn description_of(command: &Command) -> (r: String)
    ensures
        r@ == description(*command),
{
    match command {
        Command::GoTo(path) => joined2("Go to ", path),
        Command::Up(n) => joined3("Navigate up one entry in the list ", decimal(*n as u128).as_str(), " times"),
        Command::Down(n) => joined3("Navigate down one entry in the list ", decimal(*n as u128).as_str(), " times"),
        Command::Left => copy_of("Navigate to the parent directory"),
        Command::Right => copy_of("Navigate into the child directory or file"),
        Command::Sort(t) => match t {
            SortingType::Lexicographically => joined2("Sort entries ", "Lexicographically"),
            SortingType::TimeModified => joined2("Sort entries ", "TimeModified"),
            SortingType::Any => joined2("Sort entries ", "Any"),
        },
        Command::Remove => copy_of("Remove selected entry(ies) from the filesystem"),
        Command::Update => copy_of("Update the current directory"),
        Command::Yank => copy_of("Yank selected entries into buffer"),
        Command::Cut => copy_of("Cut selected entries into buffer"),
        Command::Paste => copy_of("Paste the yanked entry into the current directory"),
        Command::CumulativeSize => copy_of("Calculate the cumulative size of current entry"),
        Command::SelectUnderCursor => copy_of("Flips the selection for the entry under cursor"),
        Command::InvertSelection => copy_of("Inverts the selection in the current directory"),
        Command::ClearSelection => copy_of("Clears the list of selected items and the buffer of yanked or cut items"),
        Command::NewTab => copy_of("Creates a new tab that is a clone of the current one"),
        Command::CloseTab => copy_of("Closes current Tab. If it is the last tab then closes the program"),
        Command::NextTab => copy_of("Selects the next Tab (if any) as the new current tab"),
        Command::PreviousTab => copy_of("Selects the previous Tab (if any) as the new current tab"),
        Command::ChangeCurrentName => copy_of("Change the name of the current entry"),
        Command::EnterSearchMode => copy_of("Go inside the search bar to edit the query"),
    }
}

/// What a key press asks for, by the mode the keys go to.
pub enum KeyAction {
    Resize,
    Resolve(Option<Combination>),
    Cancel,
    Confirm,
    Insert(char),
    RemoveBefore,
    RemoveUnder,
    CursorLeft,
    CursorRight,
    Ignore,
}

/// Decides what a key does. A resize is always a resize. Waiting for a
/// command, the key extends the pending combination (any other key drops
/// it). In a text field, editing keys edit, and the tab keys still switch
/// tabs.
pub fn action_for(input: Input, in_input_mode: bool, pending: Option<Combination>) -> (r: KeyAction)
    ensures
        input == Input::EventResize ==> r is Resize,
        input != Input::EventResize && !in_input_mode ==> match r {
            KeyAction::Resolve(c) => opt_keys(c) == extended(opt_keys(pending), input),
            _ => false,
        },
        input != Input::EventResize && in_input_mode ==> match input {
            Input::Escape => r is Cancel,
            Input::Enter => r is Confirm,
            Input::Char(c) => r == KeyAction::Insert(c),
            Input::Backspace => r is RemoveBefore,
            Input::Delete => r is RemoveUnder,
            Input::Left => r is CursorLeft,
            Input::Right => r is CursorRight,
            Input::Tab => match r {
                KeyAction::Resolve(c) => opt_keys(c) == Some(Keys::Tab),
                _ => false,
            },
            Input::ShiftTab => match r {
                KeyAction::Resolve(c) => opt_keys(c) == Some(Keys::ShiftTab),
                _ => false,
            },
            _ => r is Ignore,
        },
{
    if input == Input::EventResize {
        return KeyAction::Resize;
    }
    if !in_input_mode {
        return KeyAction::Resolve(extend_combination(pending, input));
    }
    match input {
        Input::Escape => KeyAction::Cancel,
        Input::Enter => KeyAction::Confirm,
        Input::Char(c) => KeyAction::Insert(c),
        Input::Backspace => KeyAction::RemoveBefore,
        Input::Delete => KeyAction::RemoveUnder,
        Input::Left => KeyAction::CursorLeft,
        Input::Right => KeyAction::CursorRight,
        Input::Tab => KeyAction::Resolve(Some(Combination::Tab)),
        Input::ShiftTab => KeyAction::Resolve(Some(Combination::ShiftTab)),
        _ => KeyAction::Ignore,
    }
}

} // verus!
