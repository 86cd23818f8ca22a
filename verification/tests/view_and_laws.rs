use kite::app::{App, IoOutcome, StatusLevel};
use kite::config::Config;
use kite::entry::{EntryKind, FileEntry, Permissions};
use kite::event::AppCommand;
use kite::view::{
    dialog_rect, entry_style, file_list_title, list_scroll_offset, pane_shares, parent_title,
    preview_pane, selection_mark, status_bar, tree_rows, EntryStyle, PreviewPane, StatusBar,
};

fn entry(name: &str, kind: EntryKind, mode: u32) -> FileEntry {
    FileEntry {
        name: name.to_string(),
        path: format!("/w/{}", name),
        kind,
        size: 42,
        modified: None,
        permissions: Permissions::from_mode(mode),
        is_hidden: name.starts_with('.'),
        is_symlink: false,
        symlink_target: None,
    }
}

fn app_with(entries: Vec<FileEntry>, parent: Vec<FileEntry>) -> App {
    let mut app = App::new(Config::default(), "/w".to_string());
    app.reload_directory();
    app.resume(IoOutcome::Listing { entries, parent: Some(parent) });
    app
}

#[test]
fn status_bar_normal_mode() {
    let app = app_with(
        vec![entry("a", EntryKind::File, 0o644), entry("b", EntryKind::File, 0o644)],
        vec![],
    );
    match status_bar(&app) {
        StatusBar::Normal { mode, path, sort, selection, position } => {
            assert_eq!(mode, " NORMAL ");
            assert_eq!(path, " /w ");
            assert_eq!(sort, " [name\u{2191}] ");
            assert_eq!(selection, "");
            assert_eq!(position, " 1/2 ");
        }
        other => panic!("unexpected {:?}", other),
    }
}

#[test]
fn status_bar_other_modes() {
    let mut app = app_with(vec![entry("a", EntryKind::File, 0o644)], vec![]);
    app.execute_command(AppCommand::SelectAll);
    app.execute_command(AppCommand::ToggleSortOrder);
    match status_bar(&app) {
        StatusBar::Normal { selection, sort, .. } => {
            assert_eq!(selection, " 1 selected ");
            assert_eq!(sort, " [name\u{2193}] ");
        }
        other => panic!("unexpected {:?}", other),
    }
    app.execute_command(AppCommand::Delete);
    match status_bar(&app) {
        StatusBar::Confirm(m) => assert_eq!(m, "Delete 1 item(s)? [Enter/Esc]"),
        other => panic!("unexpected {:?}", other),
    }
    app.execute_command(AppCommand::CancelInput);
    app.execute_command(AppCommand::FilterMode);
    app.handle_input_char('x');
    match status_bar(&app) {
        StatusBar::Input { prompt, buffer } => {
            assert_eq!(prompt, "Filter: ");
            assert_eq!(buffer, "x");
        }
        other => panic!("unexpected {:?}", other),
    }
    app.set_status("done".to_string(), StatusLevel::Warning);
    match status_bar(&app) {
        StatusBar::Message { text, level } => {
            assert_eq!(text, "done");
            assert_eq!(level, StatusLevel::Warning);
        }
        other => panic!("unexpected {:?}", other),
    }
}

#[test]
fn empty_listing_position() {
    let app = app_with(vec![], vec![]);
    match status_bar(&app) {
        StatusBar::Normal { position, .. } => assert_eq!(position, " empty "),
        other => panic!("unexpected {:?}", other),
    }
}

#[test]
fn list_scrolling() {
    assert_eq!(list_scroll_offset(10, 0, 5), 6);
    assert_eq!(list_scroll_offset(2, 4, 5), 2);
    assert_eq!(list_scroll_offset(5, 3, 5), 3);
}

#[test]
fn entry_styles_and_marks() {
    assert_eq!(entry_style(&entry(".x", EntryKind::Directory, 0o755)), EntryStyle::Hidden);
    assert_eq!(entry_style(&entry("d", EntryKind::Directory, 0o755)), EntryStyle::Directory);
    assert_eq!(entry_style(&entry("l", EntryKind::Symlink, 0o777)), EntryStyle::Symlink);
    assert_eq!(entry_style(&entry("run", EntryKind::File, 0o755)), EntryStyle::Executable);
    assert_eq!(entry_style(&entry("f", EntryKind::File, 0o644)), EntryStyle::Plain);
    assert_eq!(entry_style(&entry("p", EntryKind::Pipe, 0o755)), EntryStyle::Plain);
    assert_eq!(selection_mark(true), "* ");
    assert_eq!(selection_mark(false), "  ");
}

#[test]
fn titles() {
    assert_eq!(file_list_title("/home/u", 3), " u (3) ");
    assert_eq!(file_list_title("/", 0), " / (0) ");
    assert_eq!(parent_title("/home/u"), " home ");
    assert_eq!(parent_title("/home"), " / ");
    assert_eq!(parent_title("/"), " / ");
}

#[test]
fn tree_rows_mark_current_directory() {
    let mut app = App::new(Config::default(), "/p/w".to_string());
    app.reload_directory();
    let parent = vec![
        entry("a", EntryKind::File, 0o644),
        entry(".h", EntryKind::Directory, 0o755),
        entry("w", EntryKind::Directory, 0o755),
        entry("z", EntryKind::Directory, 0o755),
    ];
    app.resume(IoOutcome::Listing { entries: vec![], parent: Some(parent) });
    let names: Vec<&str> = app.parent_entries.iter().map(|e| e.name.as_str()).collect();
    assert_eq!(names, vec![".h", "w", "z", "a"]);
    assert_eq!(tree_rows(&app, 10), vec![(1, true), (2, false), (3, false)]);
    assert_eq!(tree_rows(&app, 2), vec![(1, true), (2, false)]);
}

#[test]
fn panes_and_dialog() {
    assert_eq!(pane_shares(true, [1, 3, 2]), vec![(1, 6), (3, 6), (2, 6)]);
    assert_eq!(pane_shares(false, [1, 3, 2]), vec![(1, 4), (3, 4)]);
    assert_eq!(dialog_rect(100, 40), (25, 17, 50, 5));
    assert_eq!(dialog_rect(20, 6), (2, 2, 16, 2));
    assert_eq!(dialog_rect(3, 3), (1, 1, 0, 0));
}

#[test]
fn preview_pane_choices() {
    let mut app = app_with(
        vec![entry("pic.PNG", EntryKind::File, 0o644), entry("notes.txt", EntryKind::File, 0o644)],
        vec![],
    );
    match preview_pane(&app, true, 40, 1) {
        PreviewPane::Provider { path, width, height } => {
            assert_eq!(path, "/w/notes.txt");
            assert_eq!((width, height), (38, 0));
        }
        other => panic!("unexpected {:?}", other),
    }
    app.execute_command(AppCommand::CursorDown);
    assert!(matches!(preview_pane(&app, true, 40, 20), PreviewPane::ImageArea));
    match preview_pane(&app, false, 40, 20) {
        PreviewPane::ImageInfo { name, size } => {
            assert_eq!(name, "pic.PNG");
            assert_eq!(size, 42);
        }
        other => panic!("unexpected {:?}", other),
    }
    let empty = app_with(vec![], vec![]);
    assert!(matches!(preview_pane(&empty, true, 40, 20), PreviewPane::NoFile));
}

#[test]
fn toggling_twice_restores_the_selection() {
    let mut app = app_with(
        vec![entry("a", EntryKind::File, 0o644), entry("b", EntryKind::File, 0o644)],
        vec![],
    );
    app.execute_command(AppCommand::ToggleSelect);
    app.execute_command(AppCommand::CursorUp);
    app.execute_command(AppCommand::ToggleSelect);
    assert!(app.selected.is_empty());
}
