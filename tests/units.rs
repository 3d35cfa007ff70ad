use tricolumn::coloring::{
    get_rgb, maybe_paint_for_name, maybe_selected_paint_from, paint_for, Color, ColorSystem, Paint, PaintSettings,
};
use tricolumn::direntry::{index_of_entry_inside, is_selected, sort, DirEntry};
use tricolumn::drawing::{Bar, DisplaySettings};
use tricolumn::entry::{
    decimal, human_size, permission_number_to_string_representation, permissions_from_mode, select_listing, Entry,
    EntryType, Permissions,
};
use tricolumn::input::{
    action_for, KeyAction, description_of, exact_match, extend_combination, generate_possible_inputs, handle_combination, matches_for,
    Combination, Command, Input, SortingType,
};
use tricolumn::input_mode::{collect_entries_that_match, contains_pattern, insert_char_at, remove_char_at, valid_input};
use tricolumn::notification::{millis_since, Notification};
use tricolumn::path::{file_name, is_root, link_target, maybe_parent, path_to_string, FsPath};
use tricolumn::right_column::{RightColumn, RightListing};
use tricolumn::shift::siblings_shift_for;
use tricolumn::spawn::{
    app_and_args_from_words, generate_spawn_patterns, rule_from_words, spawn_rule_for, split_into_app_and_args,
};
use tricolumn::system::notification_text;
use tricolumn::tab::tab_name_from_path;
use tricolumn::text::{chars_amount, maybe_truncate, replace_range_with, truncate_with_delimiter};
use tricolumn::transfer::{destination_name, source_argument, PotentialTransfer, TransferType};

fn path(parts: &[&str]) -> FsPath {
    FsPath { parts: parts.iter().map(|p| p.to_string()).collect() }
}

fn plain_paints() -> PaintSettings {
    PaintSettings {
        dir_paint: Paint::with_fg_bg(Color::Cyan, Color::Default),
        symlink_paint: Paint::with_fg_bg(Color::Yellow, Color::Default),
        file_paint: Paint::with_fg_bg(Color::White, Color::Default),
        unknown_paint: Paint::with_fg_bg(Color::Grey, Color::White),
        executable_paint: Paint::with_fg_bg(Color::Green, Color::Default),
    }
}

fn entry(name: &str, time: u64) -> DirEntry {
    let e = Entry {
        entrytype: EntryType::Regular,
        name: name.to_string(),
        size: 1,
        time_modified: time,
        permissions: permissions_from_mode(0o644, true, false),
    };
    DirEntry::from_entry(e, &plain_paints(), false)
}

#[test]
fn fresh_shift_places_cursor_after_gap() {
    assert_eq!(siblings_shift_for(4, 20, 3, 10, None), 0);
    assert_eq!(siblings_shift_for(4, 20, 3, 100, None), 0);
    assert_eq!(siblings_shift_for(4, 20, 50, 100, None), 46);
    assert_eq!(siblings_shift_for(4, 20, 90, 100, None), 80);
    assert_eq!(siblings_shift_for(4, 20, 97, 100, None), 80);
    for i in 0..100 {
        let s = siblings_shift_for(4, 20, i, 100, None);
        assert!(s <= 80);
        assert!(s <= i && i <= s + 19);
    }
}

#[test]
fn sticky_shift_moves_one_row() {
    assert_eq!(siblings_shift_for(4, 20, 20, 100, Some(5)), 5);
    assert_eq!(siblings_shift_for(4, 20, 16, 100, Some(0)), 1);
    assert_eq!(siblings_shift_for(4, 20, 8, 100, Some(5)), 4);
    let mut shift = 0;
    for i in 1..100 {
        let next = siblings_shift_for(4, 20, i, 100, Some(shift));
        assert!(next <= shift + 1);
        shift = next;
    }
    for i in (0..99).rev() {
        let next = siblings_shift_for(4, 20, i, 100, Some(shift));
        assert!(next + 1 >= shift);
        shift = next;
    }
}

#[test]
fn resolver_fires_exact_combination() {
    let table = generate_possible_inputs();
    let pending = extend_combination(None, Input::Char('g'));
    let (pending, fired) = handle_combination(&table, pending);
    assert!(fired.is_none());
    match &pending {
        Some(Combination::Str(s)) => assert_eq!(s, "g"),
        _ => panic!("expected a pending combination"),
    }
    let matches = matches_for(&table, pending.as_ref().unwrap());
    assert_eq!(matches.len(), 10);
    let pending = extend_combination(pending, Input::Char('h'));
    let (pending, fired) = handle_combination(&table, pending);
    assert!(pending.is_none());
    match fired {
        Some(Command::GoTo(p)) => assert_eq!(p, "/home/igorek/"),
        _ => panic!("expected a go-to"),
    }
}

#[test]
fn resolver_single_key_and_unknown() {
    let table = generate_possible_inputs();
    let (pending, fired) = handle_combination(&table, extend_combination(None, Input::Char('j')));
    assert!(pending.is_none());
    assert!(matches!(fired, Some(Command::Down(1))));
    let (pending, fired) = handle_combination(&table, extend_combination(None, Input::Char('Z')));
    assert!(pending.is_none() && fired.is_none());
    let (pending, fired) = handle_combination(&table, extend_combination(None, Input::Tab));
    assert!(pending.is_none());
    assert!(matches!(fired, Some(Command::NextTab)));
    let (_, fired) = handle_combination(&table, extend_combination(None, Input::ShiftTab));
    assert!(matches!(fired, Some(Command::PreviousTab)));
    assert!(extend_combination(None, Input::Escape).is_none());
}

#[test]
fn resolver_shared_prefix_narrows() {
    let table = generate_possible_inputs();
    let s = matches_for(&table, &Combination::Str("s".to_string()));
    assert_eq!(s.len(), 3);
    let sl = matches_for(&table, &Combination::Str("sl".to_string()));
    assert_eq!(sl.len(), 1);
    assert!(exact_match(&sl, &Combination::Str("sl".to_string())));
    assert!(!exact_match(&s, &Combination::Str("s".to_string())));
}

#[test]
fn keys_by_mode() {
    assert!(matches!(action_for(Input::EventResize, true, None), KeyAction::Resize));
    match action_for(Input::Char('d'), false, Some(Combination::Str("d".to_string()))) {
        KeyAction::Resolve(Some(Combination::Str(s))) => assert_eq!(s, "dd"),
        _ => panic!("expected a combination"),
    }
    assert!(matches!(action_for(Input::Char('d'), true, None), KeyAction::Insert('d')));
    assert!(matches!(action_for(Input::Escape, true, None), KeyAction::Cancel));
    assert!(matches!(action_for(Input::Tab, true, None), KeyAction::Resolve(Some(Combination::Tab))));
    assert!(matches!(action_for(Input::Escape, false, None), KeyAction::Resolve(None)));
    assert!(matches!(action_for(Input::Unknown, true, None), KeyAction::Ignore));
}

#[test]
fn link_targets() {
    let link = path(&["a", "b", "l"]);
    assert_eq!(path_to_string(&link_target(&link, path(&["x", "y"]), false)), "/a/b/x/y");
    assert_eq!(path_to_string(&link_target(&link, path(&["x", "y"]), true)), "/x/y");
}

#[test]
fn descriptions() {
    assert_eq!(description_of(&Command::Up(5)), "Navigate up one entry in the list 5 times");
    assert_eq!(description_of(&Command::GoTo("/mnt/External")), "Go to /mnt/External");
    assert_eq!(description_of(&Command::Sort(SortingType::TimeModified)), "Sort entries TimeModified");
    assert_eq!(description_of(&Command::Left), "Navigate to the parent directory");
}

#[test]
fn search_filter_is_idempotent() {
    let list = vec![entry("Alpha", 0), entry("beta", 0), entry("ALPINE", 0), entry("gamma", 0)];
    let once = collect_entries_that_match(&list, "al");
    let names: Vec<&str> = once.iter().map(|e| e.name.as_str()).collect();
    assert_eq!(names, vec!["Alpha", "ALPINE"]);
    let twice = collect_entries_that_match(&once, "al");
    let names2: Vec<&str> = twice.iter().map(|e| e.name.as_str()).collect();
    assert_eq!(names, names2);
}

#[test]
fn search_case_rules() {
    assert!(contains_pattern("README.md", "readme"));
    assert!(!contains_pattern("readme.md", "README"));
    assert!(contains_pattern("ABC", "B"));
    assert!(contains_pattern("anything", ""));
    assert!(!contains_pattern("abc", "abd"));
}

#[test]
fn transfer_done_only_on_exact_size() {
    let p = PotentialTransfer::yank(vec![path(&["src", "f"])], vec![100]);
    let mut t = p.with_dst_paths(vec![path(&["dst", "f"])]);
    let progress = t.poll(&vec![Some(99)]);
    assert!(!progress.done);
    assert_eq!(progress.percentage, 99);
    assert!(t.dst_sizes[0].is_none());
    let progress = t.poll(&vec![Some(100)]);
    assert!(progress.done);
    assert_eq!(t.dst_sizes[0], Some(100));
}

#[test]
fn transfer_progress_counts_kept_sizes() {
    let p = PotentialTransfer::cut(vec![path(&["a"]), path(&["b"])], vec![50, 150]);
    let mut t = p.with_dst_paths(vec![path(&["x", "a"]), path(&["x", "b"])]);
    let progress = t.poll(&vec![Some(50), Some(10)]);
    assert!(!progress.done);
    assert_eq!(progress.percentage, 30);
    let progress = t.poll(&vec![None, Some(75)]);
    assert_eq!(progress.percentage, 62);
    assert_eq!(notification_text(TransferType::Cut, false, 62), "Moving...(62% done)");
    assert_eq!(notification_text(TransferType::Yank, true, 100), "Done copying!");
}

#[test]
fn paste_names_avoid_collisions() {
    let taken = vec!["f".to_string(), "f_".to_string(), "g".to_string()];
    assert_eq!(destination_name("f", &taken), "f__");
    assert_eq!(destination_name("h", &taken), "h");
    assert_eq!(source_argument(&path(&["a", "d"]), true, TransferType::Yank), "/a/d/.");
    assert_eq!(source_argument(&path(&["a", "d"]), true, TransferType::Cut), "/a/d/");
    assert_eq!(source_argument(&path(&["a", "f"]), false, TransferType::Cut), "/a/f");
}

#[test]
fn human_sizes() {
    assert_eq!(human_size(0), "0 B");
    assert_eq!(human_size(1023), "1023 B");
    assert_eq!(human_size(1024), "1 K");
    assert_eq!(human_size(1536), "1.5 K");
    assert_eq!(human_size(1048576), "1 M");
    assert_eq!(human_size(3 * 1073741824), "3 G");
    assert_eq!(decimal(1234567), "1234567");
}

#[test]
fn permission_strings() {
    assert_eq!(permission_number_to_string_representation(7), "rwx");
    assert_eq!(permission_number_to_string_representation(5), "r-x");
    assert_eq!(permission_number_to_string_representation(0), "---");
    let p = permissions_from_mode(0o100644, true, false);
    assert_eq!(p.owner, 6);
    assert_eq!(p.world, 4);
    assert_eq!(p.string_representation(), "-rw-r--r--");
    let link = permissions_from_mode(0o777, false, false);
    assert_eq!(link.string_representation(), "lrwxrwxrwx");
    assert_eq!(Permissions::empty().string_representation(), "----------");
}

#[test]
fn text_helpers() {
    assert_eq!(chars_amount("héllo"), 5);
    assert_eq!(replace_range_with("abcdef", 1, 3, "XY"), "aXYdef");
    assert_eq!(replace_range_with("abc", 1, 10, "-"), "a-");
    assert_eq!(truncate_with_delimiter("short", 10), "short");
    let long = "abcdefghijklmnopqrstuvwxyz";
    let t = truncate_with_delimiter(long, 12);
    assert_eq!(t, "abcd...vwxyz");
    assert_eq!(chars_amount(&t), 12);
    assert_eq!(maybe_truncate("a\tb\r", 100), "a    b^M");
    assert_eq!(maybe_truncate("abcdef", 3), "abc");
}

#[test]
fn editing_helpers() {
    assert_eq!(insert_char_at(&"ac".to_string(), 1, 'b'), "abc");
    assert_eq!(remove_char_at(&"abc".to_string(), 0), "bc");
    assert!(valid_input('a'));
    assert!(valid_input('é'));
    assert!(valid_input('/'));
    assert!(!valid_input('\n'));
}

#[test]
fn paths() {
    let p = path(&["home", "user"]);
    assert_eq!(path_to_string(&p), "/home/user");
    assert_eq!(path_to_string(&FsPath::root()), "/");
    assert!(is_root(&FsPath::root()));
    assert_eq!(path_to_string(&maybe_parent(&p).unwrap()), "/home");
    assert!(maybe_parent(&FsPath::root()).is_none());
    assert_eq!(file_name(&p), "user");
    assert_eq!(tab_name_from_path(&p), "user");
    assert_eq!(tab_name_from_path(&FsPath::root()), "/");
    assert!(p.same(&path(&["home", "user"])));
    assert_eq!(path_to_string(&p.join("x")), "/home/user/x");
}

#[test]
fn sorting_and_lookup() {
    let list = vec![entry("b", 3), entry("a", 9), entry("c", 1)];
    let by_name = sort(list, &SortingType::Lexicographically);
    let names: Vec<&str> = by_name.iter().map(|e| e.name.as_str()).collect();
    assert_eq!(names, vec!["a", "b", "c"]);
    let by_time = sort(by_name, &SortingType::TimeModified);
    let names: Vec<&str> = by_time.iter().map(|e| e.name.as_str()).collect();
    assert_eq!(names, vec!["c", "b", "a"]);
    assert_eq!(index_of_entry_inside(&path(&["x", "b"]), &by_time), Some(1));
    assert_eq!(index_of_entry_inside(&FsPath::root(), &by_time), Some(0));
    assert_eq!(index_of_entry_inside(&path(&["x", "q"]), &by_time), None);
    let selected = vec![path(&["x", "b"])];
    assert!(is_selected(&selected, "b", Some(&path(&["x"]))));
    assert!(!is_selected(&selected, "b", Some(&path(&["y"]))));
    assert!(!is_selected(&selected, "b", None));
}

#[test]
fn listing_hides_dot_entries_and_caps() {
    let e = |n: &str| Entry {
        entrytype: EntryType::Regular,
        name: n.to_string(),
        size: 0,
        time_modified: 0,
        permissions: Permissions::empty(),
    };
    let r = select_listing(vec![e(".a"), e("b"), e("c"), e("d"), e("e")], Some(1), false);
    let names: Vec<&str> = r.iter().map(|x| x.name.as_str()).collect();
    assert_eq!(names, vec!["b", "c", "d"]);
    let r = select_listing(vec![e(".a"), e("b")], None, true);
    assert_eq!(r.len(), 2);
}

#[test]
fn paints_by_kind_and_extension() {
    let s = plain_paints();
    assert!(paint_for(&EntryType::Directory, "x.rs", false, &s) == s.dir_paint);
    assert!(paint_for(&EntryType::Regular, "x.rs", false, &s) == Paint::with_fg_bg(Color::Red, Color::Default));
    assert!(paint_for(&EntryType::Regular, "run", true, &s) == s.executable_paint);
    assert!(paint_for(&EntryType::Regular, "notes", false, &s) == s.file_paint);
    assert!(maybe_paint_for_name("film.mkv") == Some(Paint::with_fg_bg(Color::Purple, Color::Default).bold()));
    assert!(maybe_paint_for_name("film.txt").is_none());
    let sel = maybe_selected_paint_from(Paint::with_fg_bg(Color::Red, Color::Default), true);
    assert!(sel == Paint { fg: Color::Black, bg: Color::Red, bold: true, underlined: false });
    assert_eq!(get_rgb(Color::LightBlue), (433, 735, 966));
}

#[test]
fn color_ids_are_handed_out_once() {
    let mut cs = ColorSystem::new();
    let p = Paint::with_fg_bg(Color::Red, Color::Default);
    let (id, init) = cs.get_maybe_add_paint(p);
    assert_eq!(id, 1);
    let init = init.unwrap();
    assert_eq!(init.fg, 8);
    assert_eq!(init.bg, -1);
    assert_eq!(init.colors.len(), 1);
    assert_eq!(init.colors[0].rgb, (1000, 0, 0));
    let (again, none) = cs.get_maybe_add_paint(p);
    assert_eq!(again, 1);
    assert!(none.is_none());
    let (id2, init2) = cs.get_maybe_add_paint(Paint::with_fg_bg(Color::Blue, Color::Red));
    assert_eq!(id2, 2);
    let init2 = init2.unwrap();
    assert_eq!((init2.fg, init2.bg), (9, 8));
}

#[test]
fn spawn_rules() {
    let patterns = generate_spawn_patterns();
    let (app, args, external) = spawn_rule_for(&path(&["d", "Notes.TXT"]), &patterns).unwrap();
    assert_eq!(app, "vim");
    assert_eq!(args, vec!["/d/Notes.TXT".to_string()]);
    assert!(!external);
    let (app, _, external) = spawn_rule_for(&path(&["d", "film.mkv"]), &patterns).unwrap();
    assert_eq!(app, "vlc");
    assert!(external);
    let (app, _, _) = spawn_rule_for(&path(&["d", "Makefile"]), &patterns).unwrap();
    assert_eq!(app, "vim");
    assert!(spawn_rule_for(&path(&["d", "binary"]), &patterns).is_none());
}

#[test]
fn command_lines_split() {
    let (app, args) = split_into_app_and_args("ls  -la --color x");
    assert_eq!(app, "ls");
    assert_eq!(args, vec!["-l", "-a", "--color", "x"]);
    let (app, args) = split_into_app_and_args("mv\u{3000}a\u{2028}b ");
    assert_eq!(app, "mv");
    assert_eq!(args, vec!["a", "b"]);
    let (app, args) = split_into_app_and_args("   ");
    assert_eq!(app, "");
    assert!(args.is_empty());
}

#[test]
fn words_become_programs() {
    let rule = vec!["vim".to_string(), "-p".to_string(), "@".to_string()];
    let (app, args, external) = rule_from_words(&rule, "/a/f", false);
    assert_eq!(app, "vim");
    assert_eq!(args, vec!["-p", "/a/f"]);
    assert!(!external);
    let line = vec!["tar".to_string(), "-xzf".to_string(), "x.tgz".to_string()];
    let (app, args) = app_and_args_from_words(&line);
    assert_eq!(app, "tar");
    assert_eq!(args, vec!["-x", "-z", "-f", "x.tgz"]);
}

#[test]
fn notifications_expire() {
    assert_eq!(millis_since(100, 350), 250);
    assert_eq!(millis_since(400, 350), 0);
    let n = Notification::starting_at("hi", 3000, 1000);
    assert!(!n.has_finished_at(4000));
    assert!(n.has_finished_at(4001));
    let fresh = Notification::new("now", 60000);
    assert!(!fresh.has_finished());
    assert!(fresh.start_time > 0);
    let old = Notification::starting_at("gone", 1000, 0);
    assert!(old.has_finished());
}

#[test]
fn display_geometry() {
    let d = DisplaySettings::from_dimensions(10, 80, 4, vec![(0, 10), (11, 40), (41, 78)]);
    assert_eq!(d.column_effective_height, 6);
    assert_eq!(d.scrolling_gap, 2);
    assert_eq!(DisplaySettings::resize_scrolling_gap_until_fits(4, 1), 0);
    assert_eq!(d.column_width(1), 29);
    let mut bar = Bar::with_y_and_width(0, 80);
    assert_eq!(bar.free_space(), 81);
    assert_eq!(bar.take_left(10, 2), (0, 10));
    assert_eq!(bar.ready_left, 12);
    assert_eq!(bar.take_right(5, 0), (75, 5));
    assert_eq!(bar.free_space(), 64);
    assert_eq!(bar.take_left(100, 2), (12, 64));
}

#[test]
fn preview_lines_lose_trailing_white_space() {
    let lines = vec!["x\u{3000} \t".to_string(), "y\u{200B}".to_string(), "\u{2029}".to_string()];
    let column = RightColumn::collect(RightListing::Preview(lines), &path(&["a"]), &plain_paints(),
        &SortingType::Any, true, 10, 80, &Vec::new());
    match column {
        RightColumn::Preview(p) => {
            assert_eq!(p[0], "x");
            assert_eq!(p[1], "y\u{200B}");
            assert_eq!(p[2], "");
        }
        _ => panic!("expected a preview"),
    }
}

#[test]
fn paste_names_take_fewest_underscores() {
    let taken = vec!["n".to_string(), "n__".to_string()];
    assert_eq!(destination_name("n", &taken), "n_");
}
