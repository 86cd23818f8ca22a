use kite::entry::{
    entry_from_raw, icon_for_extension, EntryKind, FileEntry, FileTypeFlags, Permissions, RawEntry,
};
use kite::event::SortField;
use kite::sort::{lex_compare, natural_compare, sort_entries};
use kite::sorting::Order;

fn file(name: &str, kind: EntryKind, size: u64, modified: Option<i128>) -> FileEntry {
    FileEntry {
        name: name.to_string(),
        path: format!("/d/{}", name),
        kind,
        size,
        modified,
        permissions: Permissions::from_mode(0o644),
        is_hidden: false,
        is_symlink: false,
        symlink_target: None,
    }
}

fn flags() -> FileTypeFlags {
    FileTypeFlags {
        is_dir: false,
        is_file: false,
        is_symlink: false,
        is_fifo: false,
        is_socket: false,
        is_block_device: false,
        is_char_device: false,
    }
}

#[test]
fn permissions_render() {
    assert_eq!(Permissions::from_mode(0o755).display(), "rwxr-xr-x");
    assert_eq!(Permissions::from_mode(0o640).display(), "rw-r-----");
    assert_eq!(Permissions::from_mode(0).display(), "---------");
    assert_eq!(Permissions::from_mode(0o100777).display(), "rwxrwxrwx");
}

#[test]
fn icons() {
    assert_eq!(icon_for_extension("RS"), "\u{e7a8}");
    assert_eq!(icon_for_extension("jpeg"), "\u{f1c5}");
    assert_eq!(icon_for_extension("unknownext"), "\u{f016}");
    assert_eq!(file("x", EntryKind::Directory, 0, None).icon(), "\u{f115}");
    assert_eq!(file("x", EntryKind::Symlink, 0, None).icon(), "\u{f0c1}");
    assert_eq!(file("main.rs", EntryKind::File, 0, None).icon(), "\u{e7a8}");
    assert_eq!(file("fifo", EntryKind::Pipe, 0, None).icon(), "\u{f016}");
}

#[test]
fn text_and_image_files() {
    assert!(file("a.rs", EntryKind::File, 0, None).is_text_file());
    assert!(!file("a.RS", EntryKind::File, 0, None).is_text_file());
    assert!(file("a.R", EntryKind::File, 0, None).is_text_file());
    assert!(!file("dir.rs", EntryKind::Directory, 0, None).is_text_file());
    assert!(file("a.PNG", EntryKind::File, 0, None).is_image_file());
    assert!(file("a.svg", EntryKind::File, 0, None).is_image_file());
    assert!(!file("a.txt", EntryKind::File, 0, None).is_image_file());
}

#[test]
fn raw_entries_become_file_entries() {
    let mut link = flags();
    link.is_symlink = true;
    let e = entry_from_raw(RawEntry {
        name: ".config".to_string(),
        path: "/h/.config".to_string(),
        link_flags: link,
        mode: 0o777,
        size: 4096,
        modified: Some(5),
        symlink_target: Some("/etc".to_string()),
    });
    assert_eq!(e.kind, EntryKind::Symlink);
    assert!(e.is_hidden);
    assert!(e.is_symlink);
    assert_eq!(e.symlink_target, Some("/etc".to_string()));
    let mut fifo = flags();
    fifo.is_fifo = true;
    let p = entry_from_raw(RawEntry {
        name: "pipe".to_string(),
        path: "/h/pipe".to_string(),
        link_flags: fifo,
        mode: 0o600,
        size: 0,
        modified: None,
        symlink_target: Some("ignored".to_string()),
    });
    assert_eq!(p.kind, EntryKind::Pipe);
    assert!(!p.is_hidden);
    assert_eq!(p.symlink_target, None);
}

#[test]
fn natural_order() {
    assert_eq!(natural_compare("file2", "file10"), Order::Less);
    assert_eq!(natural_compare("file10", "file2"), Order::Greater);
    assert_eq!(natural_compare("a", "a"), Order::Equal);
    assert_eq!(natural_compare("a1b", "a01b"), Order::Equal);
    assert_eq!(natural_compare("abc", "abd"), Order::Less);
    assert_eq!(natural_compare("x", "x1"), Order::Less);
    assert_eq!(lex_compare("b", "ab"), Order::Greater);
    assert_eq!(lex_compare("", ""), Order::Equal);
}

#[test]
fn sorting_by_each_field() {
    let base = vec![
        file("b.txt", EntryKind::File, 3, Some(30)),
        file("A.md", EntryKind::File, 1, None),
        file("dir", EntryKind::Directory, 9, Some(10)),
        file("c.rs", EntryKind::File, 2, Some(20)),
    ];
    let names = |v: &Vec<FileEntry>| v.iter().map(|e| e.name.clone()).collect::<Vec<_>>();

    let mut v = base.clone();
    sort_entries(&mut v, SortField::Name, true, true);
    assert_eq!(names(&v), vec!["dir", "A.md", "b.txt", "c.rs"]);

    let mut v = base.clone();
    sort_entries(&mut v, SortField::Name, false, false);
    assert_eq!(names(&v), vec!["dir", "c.rs", "b.txt", "A.md"]);

    let mut v = base.clone();
    sort_entries(&mut v, SortField::Size, true, false);
    assert_eq!(names(&v), vec!["A.md", "c.rs", "b.txt", "dir"]);

    let mut v = base.clone();
    sort_entries(&mut v, SortField::Modified, true, false);
    assert_eq!(names(&v), vec!["A.md", "dir", "c.rs", "b.txt"]);

    let mut v = base.clone();
    sort_entries(&mut v, SortField::Extension, true, true);
    assert_eq!(names(&v), vec!["dir", "A.md", "c.rs", "b.txt"]);
}

#[test]
fn sorting_is_stable() {
    let mut v = vec![
        file("x1", EntryKind::File, 5, None),
        file("x2", EntryKind::File, 1, None),
        file("x3", EntryKind::File, 5, None),
        file("x4", EntryKind::File, 1, None),
    ];
    sort_entries(&mut v, SortField::Size, true, true);
    let names: Vec<_> = v.iter().map(|e| e.name.as_str()).collect();
    assert_eq!(names, vec!["x2", "x4", "x1", "x3"]);
}

#[test]
fn sort_field_cycle_and_labels() {
    assert_eq!(SortField::Name.next(), SortField::Size);
    assert_eq!(SortField::Extension.next(), SortField::Name);
    assert_eq!(SortField::Name.label(), "name");
    assert_eq!(SortField::Size.label(), "size");
    assert_eq!(SortField::Modified.label(), "modified");
    assert_eq!(SortField::Extension.label(), "extension");
}

#[test]
fn sorting_again_changes_nothing() {
    let mut v = vec![
        file("b10", EntryKind::File, 5, Some(1)),
        file("b9", EntryKind::File, 5, Some(2)),
        file("dir", EntryKind::Directory, 1, None),
        file("a", EntryKind::File, 3, None),
    ];
    sort_entries(&mut v, SortField::Name, true, true);
    let once: Vec<String> = v.iter().map(|e| e.name.clone()).collect();
    assert_eq!(once, vec!["dir", "a", "b9", "b10"]);
    sort_entries(&mut v, SortField::Name, true, true);
    let twice: Vec<String> = v.iter().map(|e| e.name.clone()).collect();
    assert_eq!(once, twice);
}
