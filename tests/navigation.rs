use tricolumn::coloring::{Color, Paint, PaintSettings};
use tricolumn::context::{Context, EntryDetails};
use tricolumn::drawing::DisplaySettings;
use tricolumn::entry::{permissions_from_mode, Entry, EntryType};
use tricolumn::input::SortingType;
use tricolumn::path::{path_to_string, FsPath};
use tricolumn::right_column::{RightColumn, RightListing};
use tricolumn::system::{Settings, System};

fn paints() -> PaintSettings {
    PaintSettings {
        dir_paint: Paint::with_fg_bg(Color::Cyan, Color::Default).bold(),
        symlink_paint: Paint::with_fg_bg(Color::Yellow, Color::Default).bold(),
        file_paint: Paint::with_fg_bg(Color::White, Color::Default),
        unknown_paint: Paint::with_fg_bg(Color::Grey, Color::White).bold(),
        executable_paint: Paint::with_fg_bg(Color::Green, Color::Default),
    }
}

fn display() -> DisplaySettings {
    DisplaySettings::from_dimensions(30, 100, 4, vec![(0, 20), (21, 50), (51, 98)])
}

fn path(parts: &[&str]) -> FsPath {
    FsPath { parts: parts.iter().map(|p| p.to_string()).collect() }
}

fn dir(name: &str) -> Entry {
    Entry {
        entrytype: EntryType::Directory,
        name: name.to_string(),
        size: 4096,
        time_modified: 0,
        permissions: permissions_from_mode(0o755, false, true),
    }
}

fn file(name: &str, size: u64) -> Entry {
    Entry {
        entrytype: EntryType::Regular,
        name: name.to_string(),
        size,
        time_modified: 0,
        permissions: permissions_from_mode(0o644, true, false),
    }
}

fn nothing_for(p: FsPath) -> EntryDetails {
    EntryDetails { path: p, right: RightListing::Nothing, symlink_target: None, size: None }
}

fn context_of_a() -> Context {
    Context::generate(
        path(&["a"]),
        vec![file("c.txt", 10), dir("b")],
        vec![dir("a"), dir("etc")],
        nothing_for(path(&["a", "b"])),
        &display(),
        &paints(),
        &SortingType::Lexicographically,
        true,
        &Vec::new(),
    )
}

fn settings() -> Settings {
    Settings {
        paint_settings: paints(),
        primary_paint: Paint::with_fg_bg(Color::White, Color::Default),
        preview_paint: Paint::with_fg_bg(Color::Green, Color::Default),
        columns_ratio: vec![2, 3, 3],
        scrolling_gap: 4,
        copy_done_notification_delay_ms: 2000,
    }
}

fn system_at_a() -> System {
    System::new(settings(), display(), path(&["a"]), vec![file("c.txt", 10), dir("b")], vec![dir("a")],
        nothing_for(path(&["a", "b"])))
}

#[test]
fn directory_scenario_moves_to_preview() {
    let mut ctx = context_of_a();
    assert_eq!(ctx.current_index, 0);
    assert_eq!(ctx.current_siblings[0].name, "b");
    assert_eq!(ctx.current_siblings[1].name, "c.txt");
    assert_eq!(path_to_string(ctx.current_path.as_ref().unwrap()), "/a/b");
    assert_eq!(ctx.parent_index, 0);
    ctx.down(&display());
    assert_eq!(ctx.current_index, 1);
    assert_eq!(path_to_string(ctx.current_path.as_ref().unwrap()), "/a/c.txt");
    assert!(tricolumn::right_column::is_previewable("c.txt"));
    let details = EntryDetails {
        path: path(&["a", "c.txt"]),
        right: RightListing::Preview(vec!["hello\t\r\n".to_string(), "world".to_string()]),
        symlink_target: None,
        size: Some(12),
    };
    ctx.apply_details(details, &display(), &paints(), &SortingType::Lexicographically, true, &Vec::new());
    match &ctx.right_column {
        RightColumn::Preview(lines) => {
            assert_eq!(lines.len(), 2);
            assert_eq!(lines[0], "hello");
            assert_eq!(lines[1], "world");
        }
        _ => panic!("expected a preview"),
    }
    assert_eq!(ctx.current_siblings[1].size, 12);
}

#[test]
fn directory_entry_shows_its_children() {
    let mut ctx = context_of_a();
    let details = EntryDetails {
        path: path(&["a", "b"]),
        right: RightListing::Dir(vec![file("z", 1), file(".hidden", 1), file("m", 1)]),
        symlink_target: None,
        size: None,
    };
    ctx.apply_details(details, &display(), &paints(), &SortingType::Lexicographically, false, &Vec::new());
    match &ctx.right_column {
        RightColumn::Siblings(s) => {
            let names: Vec<&str> = s.iter().map(|e| e.name.as_str()).collect();
            assert_eq!(names, vec!["m", "z"]);
        }
        _ => panic!("expected siblings"),
    }
}

#[test]
fn up_then_down_returns() {
    let listing: Vec<Entry> = (0..10).map(|i| file(&format!("f{}", i), 1)).collect();
    let mut ctx = Context::generate(path(&["a"]), listing, vec![dir("a")], nothing_for(path(&["a", "f0"])), &display(), &paints(),
        &SortingType::Lexicographically, true, &Vec::new());
    ctx.down(&display());
    ctx.down(&display());
    let before = path_to_string(ctx.current_path.as_ref().unwrap());
    ctx.up(&display());
    ctx.down(&display());
    assert_eq!(ctx.current_index, 2);
    assert_eq!(path_to_string(ctx.current_path.as_ref().unwrap()), before);
    ctx.down(&display());
    ctx.up(&display());
    assert_eq!(ctx.current_index, 2);
    assert_eq!(path_to_string(ctx.current_path.as_ref().unwrap()), before);
}

#[test]
fn up_at_top_is_noop() {
    let mut ctx = context_of_a();
    ctx.up(&display());
    assert_eq!(ctx.current_index, 0);
    ctx.down(&display());
    ctx.down(&display());
    assert_eq!(ctx.current_index, 1);
}

#[test]
fn left_at_root_is_noop() {
    let mut ctx = Context::generate(FsPath::root(), vec![dir("a"), dir("etc")], vec![], nothing_for(path(&["a"])), &display(), &paints(),
        &SortingType::Lexicographically, true, &Vec::new());
    assert_eq!(ctx.parent_siblings.len(), 1);
    assert_eq!(ctx.parent_siblings[0].name, "/");
    ctx.left(vec![dir("x")], vec![dir("y")], nothing_for(path(&["x"])), &display(), &paints(), &SortingType::Lexicographically, true, &Vec::new());
    assert_eq!(path_to_string(&ctx.parent_path), "/");
    assert_eq!(ctx.current_siblings.len(), 2);
    assert_eq!(path_to_string(ctx.current_path.as_ref().unwrap()), "/a");
}

#[test]
fn left_lands_on_directory_left() {
    let mut ctx = context_of_a();
    ctx.left(vec![dir("etc"), dir("a"), dir("usr")], vec![], nothing_for(path(&["a"])), &display(), &paints(), &SortingType::Lexicographically,
        true, &Vec::new());
    assert_eq!(path_to_string(&ctx.parent_path), "/");
    assert_eq!(ctx.current_index, 0);
    assert_eq!(path_to_string(ctx.current_path.as_ref().unwrap()), "/a");
    assert_eq!(ctx.parent_siblings[0].name, "/");
}

#[test]
fn right_enters_directory() {
    let mut ctx = context_of_a();
    ctx.right(vec![file("inner", 3)], vec![file("c.txt", 10), dir("b")], nothing_for(path(&["a", "b", "inner"])), &display(), &paints(),
        &SortingType::Lexicographically, true, &Vec::new());
    assert_eq!(path_to_string(&ctx.parent_path), "/a/b");
    assert_eq!(path_to_string(ctx.current_path.as_ref().unwrap()), "/a/b/inner");
    assert_eq!(ctx.parent_index, 0);
}

#[test]
fn selection_then_clear() {
    let mut sys = system_at_a();
    sys.select_under_cursor();
    assert_eq!(sys.tabs[0].context.current_index, 1);
    sys.select_under_cursor();
    assert_eq!(sys.selected.len(), 2);
    assert_eq!(path_to_string(&sys.selected[0]), "/a/b");
    assert_eq!(path_to_string(&sys.selected[1]), "/a/c.txt");
    assert!(sys.tabs[0].context.current_siblings[0].is_selected);
    assert!(sys.tabs[0].context.current_siblings[1].is_selected);
    sys.clear_selection();
    assert!(sys.selected.is_empty());
    assert!(!sys.tabs[0].context.current_siblings[0].is_selected);
    assert!(!sys.tabs[0].context.current_siblings[1].is_selected);
}

#[test]
fn selecting_twice_unselects() {
    let mut sys = system_at_a();
    sys.select_under_cursor();
    sys.up();
    sys.select_under_cursor();
    assert!(sys.selected.is_empty());
    assert!(!sys.tabs[0].context.current_siblings[0].is_selected);
}

#[test]
fn invert_flips_current_column() {
    let mut sys = system_at_a();
    sys.select_under_cursor();
    sys.invert_selection();
    assert_eq!(sys.selected.len(), 1);
    assert_eq!(path_to_string(&sys.selected[0]), "/a/c.txt");
    assert!(!sys.tabs[0].context.current_siblings[0].is_selected);
    assert!(sys.tabs[0].context.current_siblings[1].is_selected);
}

#[test]
fn system_left_at_root_keeps_path() {
    let mut sys = System::new(settings(), display(), FsPath::root(), vec![dir("a")], vec![], nothing_for(path(&["a"])));
    sys.left(vec![dir("q")], vec![], nothing_for(path(&["q"])));
    assert_eq!(path_to_string(&sys.tabs[0].context.parent_path), "/");
    assert_eq!(sys.tabs[0].name, "/");
}

#[test]
fn tabs_cycle_and_close() {
    let mut sys = system_at_a();
    assert!(!sys.next_tab());
    sys.new_tab();
    assert_eq!(sys.tabs.len(), 2);
    assert_eq!(sys.tabs[1].name, "a");
    assert!(sys.next_tab());
    assert_eq!(sys.current_tab_index, 1);
    assert!(sys.next_tab());
    assert_eq!(sys.current_tab_index, 0);
    assert!(sys.previous_tab());
    assert_eq!(sys.current_tab_index, 1);
    assert!(!sys.close_tab());
    assert_eq!(sys.current_tab_index, 0);
    assert!(sys.close_tab());
}

#[test]
fn tab_count_is_bounded() {
    let mut sys = system_at_a();
    for _ in 0..20 {
        sys.new_tab();
    }
    assert_eq!(sys.tabs.len(), 8);
}

#[test]
fn goto_and_sort() {
    let mut sys = system_at_a();
    sys.goto(path(&["mnt"]), vec![dir("x"), dir("d")], vec![dir("mnt")], nothing_for(path(&["mnt", "d"])));
    assert_eq!(sys.tabs[0].name, "mnt");
    assert_eq!(sys.tabs[0].context.current_siblings[0].name, "d");
    let mut late = file("early", 1);
    late.time_modified = 50;
    let mut early = file("late", 1);
    early.time_modified = 5;
    sys.sort_with(SortingType::TimeModified, vec![late, early]);
    assert_eq!(sys.tabs[0].context.current_siblings[0].name, "late");
    assert_eq!(sys.tabs[0].context.current_siblings[1].name, "early");
}

#[test]
fn cumulative_size_text() {
    let mut sys = system_at_a();
    sys.get_cumulative_size(1536);
    assert_eq!(sys.tabs[0].context.cumulative_size_text.as_deref(), Some("Size: 1.5 K"));
}

#[test]
fn permissions_of_first_entry() {
    let ctx = context_of_a();
    assert_eq!(ctx.current_permissions.as_deref(), Some("drwxr-xr-x"));
}

#[test]
fn yank_paste_and_progress() {
    let mut sys = system_at_a();
    sys.down();
    let sources = sys.transfer_sources();
    assert_eq!(sources.len(), 1);
    assert_eq!(path_to_string(&sources[0]), "/a/c.txt");
    sys.yank_selected(vec![10]);
    assert!(sys.potential_transfer_data.is_some());
    let jobs = sys.paste_into_current();
    assert!(sys.potential_transfer_data.is_none());
    assert_eq!(jobs.len(), 1);
    assert_eq!(path_to_string(&jobs[0].destination), "/a/c.txt_");
    assert_eq!(sys.transfers.len(), 1);
    assert!(sys.polling_fast());
    assert!(sys.update_transfer_progress(vec![vec![Some(9)]]));
    assert_eq!(sys.transfers.len(), 1);
    assert_eq!(sys.notification.as_ref().unwrap().text, "Copying...(90% done)");
    assert!(sys.update_transfer_progress(vec![vec![Some(10)]]));
    assert!(sys.transfers.is_empty());
    assert_eq!(sys.notification.as_ref().unwrap().text, "Done copying!");
    assert!(!sys.polling_fast());
}

#[test]
fn cut_drains_selection() {
    let mut sys = system_at_a();
    sys.select_under_cursor();
    sys.select_under_cursor();
    let removed_sources = sys.transfer_sources();
    assert_eq!(removed_sources.len(), 2);
    sys.cut_selected(vec![4096, 10]);
    assert!(sys.selected.is_empty());
    let jobs = sys.paste_into_current();
    assert_eq!(jobs.len(), 2);
    assert_eq!(path_to_string(&jobs[0].destination), "/a/b_");
}

#[test]
fn search_mode_filters_and_restores() {
    let mut sys = System::new(settings(), display(), path(&["a"]),
        vec![file("apple", 1), file("banana", 1), file("cherry", 1)], vec![dir("a")], nothing_for(path(&["a", "apple"])));
    sys.start_search();
    assert!(sys.inside_input_mode());
    sys.insert_input('a');
    sys.insert_input('n');
    let names: Vec<&str> = sys.tabs[0].context.current_siblings.iter().map(|e| e.name.as_str()).collect();
    assert_eq!(names, vec!["banana"]);
    sys.remove_input_before_cursor();
    let names: Vec<&str> = sys.tabs[0].context.current_siblings.iter().map(|e| e.name.as_str()).collect();
    assert_eq!(names, vec!["apple", "banana"]);
    assert!(sys.confirm_input().is_none());
    assert!(!sys.inside_input_mode());
    assert_eq!(sys.tabs[0].context.current_siblings.len(), 2);
    sys.start_search();
    sys.cancel_input();
    assert_eq!(sys.tabs[0].context.current_siblings.len(), 3);
}

#[test]
fn rename_and_command_entry() {
    let mut sys = system_at_a();
    sys.start_changing_current_name();
    sys.move_input_cursor_left();
    sys.insert_input('x');
    sys.move_input_cursor_right();
    sys.move_input_cursor_right();
    sys.insert_input('!');
    sys.remove_input_under_cursor();
    match sys.confirm_input() {
        Some(tricolumn::context::InputAction::Rename { path, new_name }) => {
            assert_eq!(path_to_string(&path), "/a/b");
            assert_eq!(new_name, "xb!");
        }
        _ => panic!("expected a rename"),
    }
    sys.start_command();
    sys.insert_input('l');
    sys.insert_input('s');
    sys.remove_input_before_cursor();
    match sys.confirm_input() {
        Some(tricolumn::context::InputAction::Execute { directory, text }) => {
            assert_eq!(path_to_string(&directory), "/a");
            assert_eq!(text, "l");
        }
        _ => panic!("expected a command"),
    }
}

#[test]
fn fresh_directory_shows_first_child() {
    let first = Context::first_entry_path(&path(&["a"]), &vec![file("c.txt", 10), dir("b")], &paints(),
        &SortingType::Lexicographically, true, &Vec::new());
    assert_eq!(path_to_string(first.as_ref().unwrap()), "/a/b");
    let details = EntryDetails {
        path: first.unwrap(),
        right: RightListing::Dir(vec![file("x", 1), dir("y")]),
        symlink_target: None,
        size: None,
    };
    let ctx = Context::generate(path(&["a"]), vec![file("c.txt", 10), dir("b")], vec![dir("a"), dir("etc")], details,
        &display(), &paints(), &SortingType::Lexicographically, true, &Vec::new());
    match &ctx.right_column {
        RightColumn::Siblings(s) => {
            let names: Vec<&str> = s.iter().map(|e| e.name.as_str()).collect();
            assert_eq!(names, vec!["x", "y"]);
        }
        _ => panic!("expected the children of /a/b"),
    }
    assert_eq!(ctx.parent_siblings[ctx.parent_index].name, "a");
}

#[test]
fn details_for_another_path_leave_column_empty() {
    let details = EntryDetails {
        path: path(&["a", "c.txt"]),
        right: RightListing::Preview(vec!["text".to_string()]),
        symlink_target: None,
        size: Some(3),
    };
    let mut ctx = context_of_a();
    ctx.apply_details(details, &display(), &paints(), &SortingType::Lexicographically, true, &Vec::new());
    assert!(matches!(ctx.right_column, RightColumn::Empty));
    assert_eq!(ctx.current_siblings[0].size, 4096);
}

#[test]
fn moving_clears_third_column() {
    let mut ctx = context_of_a();
    let details = EntryDetails {
        path: path(&["a", "b"]),
        right: RightListing::Dir(vec![file("x", 1)]),
        symlink_target: None,
        size: None,
    };
    ctx.apply_details(details, &display(), &paints(), &SortingType::Lexicographically, true, &Vec::new());
    assert!(matches!(ctx.right_column, RightColumn::Siblings(_)));
    ctx.down(&display());
    assert!(matches!(ctx.right_column, RightColumn::Empty));
}

#[test]
fn preview_keeps_at_most_column_height() {
    let mut ctx = context_of_a();
    ctx.down(&display());
    let lines: Vec<String> = (0..100).map(|i| format!("line {}", i)).collect();
    let details = EntryDetails { path: path(&["a", "c.txt"]), right: RightListing::Preview(lines), symlink_target: None, size: None };
    ctx.apply_details(details, &display(), &paints(), &SortingType::Lexicographically, true, &Vec::new());
    match &ctx.right_column {
        RightColumn::Preview(p) => assert_eq!(p.len(), display().column_effective_height),
        _ => panic!("expected a preview"),
    }
}

#[test]
fn paste_avoids_unfiltered_names_and_batch() {
    let mut sys = System::new(settings(), display(), path(&["a"]), vec![file("f", 1), file("g", 1)], vec![dir("a")],
        nothing_for(path(&["a", "f"])));
    sys.start_search();
    sys.insert_input('g');
    assert_eq!(sys.tabs[0].context.current_siblings.len(), 1);
    sys.potential_transfer_data = Some(tricolumn::transfer::PotentialTransfer::yank(
        vec![path(&["x", "f"]), path(&["y", "f"])], vec![1, 1]));
    let jobs = sys.paste_into_current();
    assert_eq!(path_to_string(&jobs[0].destination), "/a/f_");
    assert_eq!(path_to_string(&jobs[1].destination), "/a/f__");
    assert_eq!(path_to_string(&sys.transfers[0].dst_paths[1]), "/a/f__");
}
