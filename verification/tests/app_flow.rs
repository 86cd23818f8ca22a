use kite::app::{AppAction, AppMode, App, ClipboardOp, ConfirmAction, InputContext, IoOutcome};
use kite::config::Config;
use kite::entry::{EntryKind, FileEntry, Permissions};
use kite::event::{AppCommand, SortField};
use kite::input::handle_key;
use kite::keymap::{KeyContext, KeyInput, RawKeyCode};

fn entry(name: &str, kind: EntryKind, size: u64) -> FileEntry {
    FileEntry {
        name: name.to_string(),
        path: format!("/home/u/{}", name),
        kind,
        size,
        modified: None,
        permissions: Permissions::from_mode(0o644),
        is_hidden: name.starts_with('.'),
        is_symlink: false,
        symlink_target: None,
    }
}

fn listing() -> Vec<FileEntry> {
    vec![
        entry("b.txt", EntryKind::File, 20),
        entry("docs", EntryKind::Directory, 0),
        entry(".hidden", EntryKind::File, 1),
        entry("a.txt", EntryKind::File, 10),
        entry("file10", EntryKind::File, 5),
        entry("file2", EntryKind::File, 7),
    ]
}

fn loaded_app() -> App {
    let mut app = App::new(Config::default(), "/home/u".to_string());
    match app.reload_directory() {
        AppAction::ReadDirectory { dir, parent } => {
            assert_eq!(dir, "/home/u");
            assert_eq!(parent, Some("/home".to_string()));
        }
        other => panic!("unexpected action {:?}", other),
    }
    let parent = vec![entry("u", EntryKind::Directory, 0), entry("a", EntryKind::Directory, 0)];
    let next = app.resume(IoOutcome::Listing { entries: listing(), parent: Some(parent) });
    assert!(matches!(next, AppAction::Done));
    app
}

fn names(app: &App) -> Vec<String> {
    app.visible_entries().iter().map(|e| e.name.clone()).collect()
}

fn key(code: RawKeyCode) -> KeyInput {
    KeyInput { code, ctrl: false, alt: false, shift: false }
}

#[test]
fn new_app_starts_empty_in_normal_mode() {
    let app = App::new(Config::default(), "/home/u".to_string());
    assert!(app.entries.is_empty());
    assert_eq!(app.history, vec!["/home/u".to_string()]);
    assert_eq!(app.history_index, 0);
    assert!(matches!(app.mode, AppMode::Normal));
    assert_eq!(app.sort_field, SortField::Name);
    assert!(!app.should_quit);
}

#[test]
fn listing_is_sorted_dirs_first_and_hidden_filtered() {
    let app = loaded_app();
    assert_eq!(names(&app), vec!["docs", "a.txt", "b.txt", "file2", "file10"]);
    assert_eq!(app.entries.len(), 6);
    let parent: Vec<String> = app.parent_entries.iter().map(|e| e.name.clone()).collect();
    assert_eq!(parent, vec!["a", "u"]);
    assert_eq!(app.cursor_index, 0);
}

#[test]
fn cursor_moves_and_clamps() {
    let mut app = loaded_app();
    app.execute_command(AppCommand::CursorUp);
    assert_eq!(app.cursor_index, 0);
    app.execute_command(AppCommand::CursorDown);
    app.execute_command(AppCommand::CursorDown);
    assert_eq!(app.cursor_index, 2);
    app.execute_command(AppCommand::CursorBottom);
    assert_eq!(app.cursor_index, 4);
    app.execute_command(AppCommand::CursorDown);
    assert_eq!(app.cursor_index, 4);
    app.execute_command(AppCommand::PageUp);
    assert_eq!(app.cursor_index, 0);
    app.execute_command(AppCommand::PageDown);
    assert_eq!(app.cursor_index, 4);
    app.execute_command(AppCommand::CursorTop);
    assert_eq!(app.cursor_index, 0);
    assert_eq!(app.scroll_offset, 0);
}

#[test]
fn cursor_down_then_up_returns() {
    let mut app = loaded_app();
    app.execute_command(AppCommand::CursorDown);
    let before = app.cursor_index;
    app.execute_command(AppCommand::CursorDown);
    app.execute_command(AppCommand::CursorUp);
    assert_eq!(app.cursor_index, before);
}

#[test]
fn toggle_hidden_shows_dotfiles() {
    let mut app = loaded_app();
    app.execute_command(AppCommand::ToggleHidden);
    assert_eq!(names(&app), vec!["docs", ".hidden", "a.txt", "b.txt", "file2", "file10"]);
}

#[test]
fn sort_by_size_descending() {
    let mut app = loaded_app();
    app.execute_command(AppCommand::SortBy(SortField::Size));
    assert_eq!(names(&app), vec!["docs", "file10", "file2", "a.txt", "b.txt"]);
    app.execute_command(AppCommand::ToggleSortOrder);
    assert!(!app.sort_ascending);
    assert_eq!(names(&app), vec!["docs", "b.txt", "a.txt", "file2", "file10"]);
}

#[test]
fn sort_next_cycles_fields() {
    let mut app = loaded_app();
    app.execute_command(AppCommand::SortNext);
    assert_eq!(app.sort_field, SortField::Size);
    app.execute_command(AppCommand::SortNext);
    assert_eq!(app.sort_field, SortField::Modified);
    app.execute_command(AppCommand::SortNext);
    assert_eq!(app.sort_field, SortField::Extension);
    app.execute_command(AppCommand::SortNext);
    assert_eq!(app.sort_field, SortField::Name);
}

#[test]
fn toggle_select_and_copy_then_paste() {
    let mut app = loaded_app();
    app.execute_command(AppCommand::CursorDown);
    app.execute_command(AppCommand::ToggleSelect);
    assert_eq!(app.selected, vec![2]);
    assert_eq!(app.cursor_index, 2);
    app.execute_command(AppCommand::ToggleSelect);
    assert_eq!(app.selected, vec![2, 3]);
    app.execute_command(AppCommand::CursorUp);
    app.execute_command(AppCommand::ToggleSelect);
    assert_eq!(app.selected, vec![2]);
    app.execute_command(AppCommand::CursorUp);
    app.execute_command(AppCommand::ToggleSelect);
    assert_eq!(app.selected, vec![2, 3]);
    app.execute_command(AppCommand::Copy);
    let clip = app.clipboard.clone().expect("clipboard");
    assert_eq!(clip.operation, ClipboardOp::Copy);
    assert_eq!(clip.paths, vec!["/home/u/a.txt".to_string(), "/home/u/b.txt".to_string()]);
    assert_eq!(app.status_message.as_ref().unwrap().text, "2 item(s) copied");
    match app.execute_command(AppCommand::Paste) {
        AppAction::CopyEntries { sources, dest } => {
            assert_eq!(sources.len(), 2);
            assert_eq!(dest, "/home/u");
        }
        other => panic!("unexpected action {:?}", other),
    }
    let next = app.resume(IoOutcome::Count(2));
    assert!(matches!(next, AppAction::ReadDirectory { .. }));
    assert_eq!(app.status_message.as_ref().unwrap().text, "2 item(s) pasted");
    assert!(app.clipboard.is_some());
}

#[test]
fn cut_then_paste_moves_and_empties_clipboard() {
    let mut app = loaded_app();
    app.execute_command(AppCommand::SelectAll);
    assert_eq!(app.selected.len(), 5);
    app.execute_command(AppCommand::Cut);
    assert_eq!(app.status_message.as_ref().unwrap().text, "5 item(s) cut");
    assert!(matches!(app.execute_command(AppCommand::Paste), AppAction::MoveEntries { .. }));
    app.resume(IoOutcome::Count(5));
    assert_eq!(app.status_message.as_ref().unwrap().text, "5 item(s) moved");
    assert!(app.clipboard.is_none());
}

#[test]
fn copy_with_nothing_selected_does_nothing() {
    let mut app = loaded_app();
    app.execute_command(AppCommand::Copy);
    assert!(app.clipboard.is_none());
    assert!(app.status_message.is_none());
}

#[test]
fn visual_mode_selects_a_range() {
    let mut app = loaded_app();
    app.execute_command(AppCommand::CursorDown);
    app.execute_command(AppCommand::VisualMode);
    assert!(matches!(app.mode, AppMode::Visual));
    assert_eq!(app.selected, vec![app.filtered_indices[1]]);
    app.execute_command(AppCommand::CursorDown);
    app.execute_command(AppCommand::CursorDown);
    let expected: Vec<usize> = app.filtered_indices[1..4].to_vec();
    assert_eq!(app.selected, expected);
    app.execute_command(AppCommand::NormalMode);
    assert!(matches!(app.mode, AppMode::Normal));
    assert_eq!(app.visual_anchor, None);
}

#[test]
fn delete_asks_for_confirmation_then_deletes() {
    let mut app = loaded_app();
    app.execute_command(AppCommand::CursorDown);
    assert!(matches!(app.execute_command(AppCommand::Delete), AppAction::Done));
    match &app.mode {
        AppMode::Confirm(ConfirmAction::Delete(paths)) => {
            assert_eq!(paths, &vec!["/home/u/a.txt".to_string()]);
        }
        other => panic!("unexpected mode {:?}", other),
    }
    match app.execute_command(AppCommand::ConfirmInput) {
        AppAction::DeleteEntries { targets } => assert_eq!(targets, vec!["/home/u/a.txt".to_string()]),
        other => panic!("unexpected action {:?}", other),
    }
    assert!(matches!(app.mode, AppMode::Confirm(ConfirmAction::Delete(_))));
    assert!(matches!(app.resume(IoOutcome::Count(1)), AppAction::ReadDirectory { .. }));
    assert!(matches!(app.mode, AppMode::Normal));
    assert_eq!(app.status_message.as_ref().unwrap().text, "1 item(s) deleted");
}

#[test]
fn delete_without_confirmation_reports_one_item() {
    let mut config = Config::default();
    config.general.confirm_delete = false;
    let mut app = App::new(config, "/home/u".to_string());
    app.reload_directory();
    app.resume(IoOutcome::Listing { entries: listing(), parent: None });
    assert!(matches!(app.execute_command(AppCommand::Delete), AppAction::DeleteEntries { .. }));
    assert!(matches!(app.resume(IoOutcome::Count(1)), AppAction::ReadDirectory { .. }));
    assert_eq!(app.status_message.as_ref().unwrap().text, "1 item deleted");
}

#[test]
fn rename_flow() {
    let mut app = loaded_app();
    app.execute_command(AppCommand::CursorDown);
    app.execute_command(AppCommand::Rename);
    assert_eq!(app.input_buffer, "a.txt");
    match &app.mode {
        AppMode::Input(InputContext::Rename { original }) => assert_eq!(original, "a.txt"),
        other => panic!("unexpected mode {:?}", other),
    }
    handle_key(&mut app, key(RawKeyCode::Backspace));
    handle_key(&mut app, key(RawKeyCode::Backspace));
    handle_key(&mut app, key(RawKeyCode::Backspace));
    handle_key(&mut app, key(RawKeyCode::Char('m')));
    handle_key(&mut app, key(RawKeyCode::Char('d')));
    assert_eq!(app.input_buffer, "a.md");
    let cmd = handle_key(&mut app, key(RawKeyCode::Enter));
    assert!(matches!(cmd, Some(AppCommand::ConfirmInput)));
    match app.execute_command(AppCommand::ConfirmInput) {
        AppAction::RenameEntry { from, to } => {
            assert_eq!(from, "/home/u/a.txt");
            assert_eq!(to, "/home/u/a.md");
        }
        other => panic!("unexpected action {:?}", other),
    }
    // until the rename has succeeded, the rename mode and its input stay
    assert_eq!(app.input_buffer, "a.md");
    assert!(matches!(app.mode, AppMode::Input(InputContext::Rename { .. })));
    app.resume(IoOutcome::Done);
    assert!(app.input_buffer.is_empty());
    assert!(matches!(app.mode, AppMode::Normal));
    assert_eq!(app.status_message.as_ref().unwrap().text, "Renamed to a.md");
}

#[test]
fn rename_to_same_name_does_nothing() {
    let mut app = loaded_app();
    app.execute_command(AppCommand::Rename);
    assert!(matches!(app.execute_command(AppCommand::ConfirmInput), AppAction::Done));
    assert!(matches!(app.mode, AppMode::Normal));
}

#[test]
fn create_file_and_directory() {
    let mut app = loaded_app();
    app.execute_command(AppCommand::CreateFile);
    for c in "new.txt".chars() {
        app.handle_input_char(c);
    }
    match app.execute_command(AppCommand::ConfirmInput) {
        AppAction::CreateFile { path } => assert_eq!(path, "/home/u/new.txt"),
        other => panic!("unexpected action {:?}", other),
    }
    assert!(matches!(app.mode, AppMode::Input(InputContext::CreateFile)));
    assert_eq!(app.input_buffer, "new.txt");
    app.resume(IoOutcome::Done);
    assert!(matches!(app.mode, AppMode::Normal));
    assert_eq!(app.status_message.as_ref().unwrap().text, "Created new.txt");
    app.execute_command(AppCommand::CreateDir);
    for c in "sub".chars() {
        app.handle_input_char(c);
    }
    match app.execute_command(AppCommand::ConfirmInput) {
        AppAction::CreateDirectory { path } => assert_eq!(path, "/home/u/sub"),
        other => panic!("unexpected action {:?}", other),
    }
    app.resume(IoOutcome::Done);
    assert_eq!(app.status_message.as_ref().unwrap().text, "Created directory sub");
}

#[test]
fn empty_name_creates_nothing() {
    let mut app = loaded_app();
    app.execute_command(AppCommand::CreateFile);
    assert!(matches!(app.execute_command(AppCommand::ConfirmInput), AppAction::Done));
}

#[test]
fn filter_keeps_matching_names() {
    let mut app = loaded_app();
    app.execute_command(AppCommand::FilterMode);
    for c in "FILE".chars() {
        app.handle_input_char(c);
    }
    app.execute_command(AppCommand::ConfirmInput);
    assert_eq!(app.filter, Some("FILE".to_string()));
    assert_eq!(names(&app), vec!["file2", "file10"]);
    app.execute_command(AppCommand::FilterMode);
    app.execute_command(AppCommand::ConfirmInput);
    assert_eq!(app.filter, None);
    assert_eq!(names(&app).len(), 5);
}

#[test]
fn search_wraps_around() {
    let mut app = loaded_app();
    app.execute_command(AppCommand::SearchMode);
    for c in "txt".chars() {
        app.handle_input_char(c);
    }
    app.execute_command(AppCommand::ConfirmInput);
    assert_eq!(app.cursor_index, 1);
    app.execute_command(AppCommand::SearchNext);
    assert_eq!(app.cursor_index, 2);
    app.execute_command(AppCommand::SearchNext);
    assert_eq!(app.cursor_index, 1);
    app.execute_command(AppCommand::SearchPrev);
    assert_eq!(app.cursor_index, 2);
}

#[test]
fn search_without_match_keeps_cursor() {
    let mut app = loaded_app();
    app.execute_command(AppCommand::SearchMode);
    app.handle_input_char('z');
    app.execute_command(AppCommand::ConfirmInput);
    assert_eq!(app.cursor_index, 0);
}

#[test]
fn enter_directory_and_go_back_and_forward() {
    let mut app = loaded_app();
    match app.execute_command(AppCommand::EnterDirectory) {
        AppAction::ReadDirectory { dir, parent } => {
            assert_eq!(dir, "/home/u/docs");
            assert_eq!(parent, Some("/home/u".to_string()));
        }
        other => panic!("unexpected action {:?}", other),
    }
    app.resume(IoOutcome::Listing { entries: vec![], parent: None });
    assert_eq!(app.current_dir, "/home/u/docs");
    assert_eq!(app.history.len(), 2);
    assert!(app.current_entry().is_none());
    assert!(matches!(app.execute_command(AppCommand::GoBack), AppAction::ReadDirectory { .. }));
    assert_eq!(app.current_dir, "/home/u");
    assert!(matches!(app.execute_command(AppCommand::GoForward), AppAction::ReadDirectory { .. }));
    assert_eq!(app.current_dir, "/home/u/docs");
    assert!(matches!(app.execute_command(AppCommand::GoForward), AppAction::Done));
}

#[test]
fn enter_on_a_file_does_nothing() {
    let mut app = loaded_app();
    app.execute_command(AppCommand::CursorDown);
    assert!(matches!(app.execute_command(AppCommand::EnterDirectory), AppAction::Done));
    assert_eq!(app.current_dir, "/home/u");
}

#[test]
fn parent_directory_focuses_the_directory_left() {
    let mut app = loaded_app();
    app.execute_command(AppCommand::EnterDirectory);
    app.resume(IoOutcome::Listing { entries: vec![], parent: None });
    match app.execute_command(AppCommand::ParentDirectory) {
        AppAction::ReadDirectory { dir, .. } => assert_eq!(dir, "/home/u"),
        other => panic!("unexpected action {:?}", other),
    }
    app.resume(IoOutcome::Listing { entries: listing(), parent: None });
    assert_eq!(app.current_entry().unwrap().name, "docs");
    assert_eq!(app.history.len(), 3);
}

#[test]
fn parent_listing_failure_keeps_old_parent() {
    let mut app = loaded_app();
    app.reload_directory();
    app.resume(IoOutcome::Listing { entries: listing(), parent: None });
    assert_eq!(app.parent_entries.len(), 2);
}

#[test]
fn quit_commands_set_the_flag() {
    let mut app = loaded_app();
    app.execute_command(AppCommand::Quit);
    assert!(app.should_quit);
    let mut app = loaded_app();
    app.execute_command(AppCommand::ForceQuit);
    assert!(app.should_quit);
}

#[test]
fn toggles_and_modes() {
    let mut app = loaded_app();
    let preview = app.show_preview;
    app.execute_command(AppCommand::TogglePreview);
    assert_eq!(app.show_preview, !preview);
    app.execute_command(AppCommand::CommandMode);
    assert!(app.is_input_mode());
    assert_eq!(app.key_context(), KeyContext::Command);
    app.execute_command(AppCommand::CancelInput);
    assert!(!app.is_input_mode());
    app.execute_command(AppCommand::SearchMode);
    assert_eq!(app.key_context(), KeyContext::Search);
    assert!(matches!(app.execute_command(AppCommand::Refresh), AppAction::ReadDirectory { .. }));
}

#[test]
fn status_message_expires() {
    let mut app = loaded_app();
    app.set_status_at("hello".to_string(), kite::app::StatusLevel::Info, 1_000);
    assert_eq!(app.status_message.as_ref().unwrap().expires, 3_000_001_000);
    app.tick_at(3_000_001_000);
    assert!(app.status_message.is_some());
    app.tick_at(3_000_001_001);
    assert!(app.status_message.is_none());
}

#[test]
fn ensure_cursor_visible_scrolls() {
    let mut app = loaded_app();
    app.execute_command(AppCommand::CursorBottom);
    app.ensure_cursor_visible(2);
    assert_eq!(app.scroll_offset, 3);
    app.execute_command(AppCommand::CursorTop);
    app.scroll_offset = 3;
    app.ensure_cursor_visible(2);
    assert_eq!(app.scroll_offset, 0);
}

#[test]
fn input_keys_with_control() {
    let mut app = loaded_app();
    app.execute_command(AppCommand::SearchMode);
    let ctrl = |c| KeyInput { code: RawKeyCode::Char(c), ctrl: true, alt: false, shift: false };
    assert!(matches!(handle_key(&mut app, ctrl('c')), Some(AppCommand::CancelInput)));
    assert!(matches!(handle_key(&mut app, ctrl('n')), Some(AppCommand::SearchNext)));
    assert!(matches!(handle_key(&mut app, ctrl('p')), Some(AppCommand::SearchPrev)));
    assert!(handle_key(&mut app, ctrl('x')).is_none());
    assert!(matches!(handle_key(&mut app, key(RawKeyCode::Esc)), Some(AppCommand::CancelInput)));
    assert!(app.input_buffer.is_empty());
}

#[test]
fn normal_keys_go_through_the_keymap() {
    let mut app = loaded_app();
    assert!(matches!(handle_key(&mut app, key(RawKeyCode::Char('j'))), Some(AppCommand::CursorDown)));
    assert!(handle_key(&mut app, key(RawKeyCode::Char('g'))).is_none());
    assert!(matches!(handle_key(&mut app, key(RawKeyCode::Char('g'))), Some(AppCommand::CursorTop)));
    assert!(handle_key(&mut app, key(RawKeyCode::Other)).is_none());
    assert!(handle_key(&mut app, key(RawKeyCode::Char('Z'))).is_none());
}
