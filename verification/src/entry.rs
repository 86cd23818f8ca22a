//! File entries as listed in a directory pane.

use vstd::prelude::*;
use crate::paths::{extension_or_empty, spec_extension_or_empty};
use crate::text::{spec_lowercase, str_eq, to_lowercase};

verus! {

/// One entry of a directory listing. Paths are carried as strings and the
/// modification time as nanoseconds relative to the Unix epoch.
#[derive(Debug)]
pub struct FileEntry {
    pub name: String,
    pub path: String,
    pub kind: EntryKind,
    pub size: u64,
    pub modified: Option<i128>,
    pub permissions: Permissions,
    pub is_hidden: bool,
    pub is_symlink: bool,
    pub symlink_target: Option<String>,
}

#[derive(Clone, Copy, Debug, PartialEq, Eq, Structural)]
pub enum EntryKind {
    File,
    Directory,
    Symlink,
    Pipe,
    Socket,
    BlockDevice,
    CharDevice,
    Unknown,
}

#[derive(Clone, Copy, Debug, PartialEq, Eq, Structural)]
pub struct Permissions {
    pub user: PermTriple,
    pub group: PermTriple,
    pub other: PermTriple,
}

#[derive(Clone, Copy, Debug, PartialEq, Eq, Structural)]
pub struct PermTriple {
    pub read: bool,
    pub write: bool,
    pub execute: bool,
}

impl Clone for FileEntry {
    fn clone(&self) -> (r: Self)
        ensures
            r == *self,
    {
        FileEntry {
            name: self.name.clone(),
            path: self.path.clone(),
            kind: self.kind,
            size: self.size,
            modified: self.modified,
            permissions: self.permissions,
            is_hidden: self.is_hidden,
            is_symlink: self.is_symlink,
            symlink_target: match &self.symlink_target {
                Some(t) => Some(t.clone()),
                None => None,
            },
        }
    }
}

/// The permission bit `bit` of `mode` is set.
pub open spec fn bit_set(mode: u32, bit: u32) -> bool {
    mode & bit != 0
}

/// Permission flags read from the low nine bits of a Unix mode.
pub open spec fn spec_permissions_from_mode(mode: u32) -> Permissions {
    Permissions {
        user: PermTriple {
            read: bit_set(mode, 0o400),
            write: bit_set(mode, 0o200),
            execute: bit_set(mode, 0o100),
        },
        group: PermTriple {
            read: bit_set(mode, 0o040),
            write: bit_set(mode, 0o020),
            execute: bit_set(mode, 0o010),
        },
        other: PermTriple {
            read: bit_set(mode, 0o004),
            write: bit_set(mode, 0o002),
            execute: bit_set(mode, 0o001),
        },
    }
}

pub open spec fn flag_char(set: bool, c: char) -> char {
    if set {
        c
    } else {
        '-'
    }
}

/// The `rwxr-xr-x` rendering of the permission flags.
pub open spec fn spec_permissions_display(p: Permissions) -> Seq<char> {
    seq![
        flag_char(p.user.read, 'r'),
        flag_char(p.user.write, 'w'),
        flag_char(p.user.execute, 'x'),
        flag_char(p.group.read, 'r'),
        flag_char(p.group.write, 'w'),
        flag_char(p.group.execute, 'x'),
        flag_char(p.other.read, 'r'),
        flag_char(p.other.write, 'w'),
        flag_char(p.other.execute, 'x'),
    ]
}

fn flag(set: bool, c: char) -> (r: char)
    ensures
        r == flag_char(set, c),
{
    if set {
        c
    } else {
        '-'
    }
}

impl Permissions {
    pub fn from_mode(mode: u32) -> (r: Self)
        ensures
            r == spec_permissions_from_mode(mode),
    {
        Permissions {
            user: PermTriple {
                read: mode & 0o400 != 0,
                write: mode & 0o200 != 0,
                execute: mode & 0o100 != 0,
            },
            group: PermTriple {
                read: mode & 0o040 != 0,
                write: mode & 0o020 != 0,
                execute: mode & 0o010 != 0,
            },
            other: PermTriple {
                read: mode & 0o004 != 0,
                write: mode & 0o002 != 0,
                execute: mode & 0o001 != 0,
            },
        }
    }

    pub fn display(&self) -> (r: String)
        ensures
            r@ == spec_permissions_display(*self),
    {
        let mut s = String::new();
        crate::text::string_push(&mut s, flag(self.user.read, 'r'));
        crate::text::string_push(&mut s, flag(self.user.write, 'w'));
        crate::text::string_push(&mut s, flag(self.user.execute, 'x'));
        crate::text::string_push(&mut s, flag(self.group.read, 'r'));
        crate::text::string_push(&mut s, flag(self.group.write, 'w'));
        crate::text::string_push(&mut s, flag(self.group.execute, 'x'));
        crate::text::string_push(&mut s, flag(self.other.read, 'r'));
        crate::text::string_push(&mut s, flag(self.other.write, 'w'));
        crate::text::string_push(&mut s, flag(self.other.execute, 'x'));
        assert(s@ =~= spec_permissions_display(*self));
        s
    }
}

/// Icon for an already lowercased extension.
pub open spec fn spec_icon_for_lowercase(e: Seq<char>) -> Seq<char> {
    if e == "rs"@ {
        "\u{e7a8}"@
    } else if e == "toml"@ {
        "\u{e615}"@
    } else if e == "md"@ {
        "\u{e73e}"@
    } else if e == "py"@ {
        "\u{e73c}"@
    } else if e == "js"@ || e == "jsx"@ {
        "\u{e74e}"@
    } else if e == "ts"@ || e == "tsx"@ {
        "\u{e628}"@
    } else if e == "go"@ {
        "\u{e626}"@
    } else if e == "c"@ || e == "h"@ {
        "\u{e61e}"@
    } else if e == "cpp"@ || e == "hpp"@ || e == "cc"@ {
        "\u{e61d}"@
    } else if e == "java"@ {
        "\u{e738}"@
    } else if e == "rb"@ {
        "\u{e739}"@
    } else if e == "sh"@ || e == "bash"@ || e == "zsh"@ {
        "\u{e795}"@
    } else if e == "json"@ {
        "\u{e60b}"@
    } else if e == "yaml"@ || e == "yml"@ {
        "\u{e6a8}"@
    } else if e == "html"@ {
        "\u{e736}"@
    } else if e == "css"@ || e == "scss"@ {
        "\u{e749}"@
    } else if e == "png"@ || e == "jpg"@ || e == "jpeg"@ || e == "gif"@ || e == "bmp"@ || e
        == "svg"@ || e == "webp"@ {
        "\u{f1c5}"@
    } else if e == "pdf"@ {
        "\u{f1c1}"@
    } else if e == "zip"@ || e == "tar"@ || e == "gz"@ || e == "bz2"@ || e == "xz"@ || e
        == "7z"@ || e == "rar"@ {
        "\u{f1c6}"@
    } else if e == "lock"@ {
        "\u{f023}"@
    } else if e == "lua"@ {
        "\u{e620}"@
    } else if e == "vim"@ {
        "\u{e62b}"@
    } else if e == "git"@ || e == "gitignore"@ {
        "\u{f1d3}"@
    } else if e == "docker"@ || e == "dockerfile"@ {
        "\u{f308}"@
    } else {
        "\u{f016}"@
    }
}

/// Icon for an extension that has already been lowercased.
pub fn icon_for_lowercase_extension(e: &str) -> (r: &'static str)
    ensures
        r@ == spec_icon_for_lowercase(e@),
{
    if str_eq(e, "rs") {
        "\u{e7a8}"
    } else if str_eq(e, "toml") {
        "\u{e615}"
    } else if str_eq(e, "md") {
        "\u{e73e}"
    } else if str_eq(e, "py") {
        "\u{e73c}"
    } else if str_eq(e, "js") || str_eq(e, "jsx") {
        "\u{e74e}"
    } else if str_eq(e, "ts") || str_eq(e, "tsx") {
        "\u{e628}"
    } else if str_eq(e, "go") {
        "\u{e626}"
    } else if str_eq(e, "c") || str_eq(e, "h") {
        "\u{e61e}"
    } else if str_eq(e, "cpp") || str_eq(e, "hpp") || str_eq(e, "cc") {
        "\u{e61d}"
    } else if str_eq(e, "java") {
        "\u{e738}"
    } else if str_eq(e, "rb") {
        "\u{e739}"
    } else if str_eq(e, "sh") || str_eq(e, "bash") || str_eq(e, "zsh") {
        "\u{e795}"
    } else if str_eq(e, "json") {
        "\u{e60b}"
    } else if str_eq(e, "yaml") || str_eq(e, "yml") {
        "\u{e6a8}"
    } else if str_eq(e, "html") {
        "\u{e736}"
    } else if str_eq(e, "css") || str_eq(e, "scss") {
        "\u{e749}"
    } else if str_eq(e, "png") || str_eq(e, "jpg") || str_eq(e, "jpeg") || str_eq(e, "gif")
        || str_eq(e, "bmp") || str_eq(e, "svg") || str_eq(e, "webp") {
        "\u{f1c5}"
    } else if str_eq(e, "pdf") {
        "\u{f1c1}"
    } else if str_eq(e, "zip") || str_eq(e, "tar") || str_eq(e, "gz") || str_eq(e, "bz2")
        || str_eq(e, "xz") || str_eq(e, "7z") || str_eq(e, "rar") {
        "\u{f1c6}"
    } else if str_eq(e, "lock") {
        "\u{f023}"
    } else if str_eq(e, "lua") {
        "\u{e620}"
    } else if str_eq(e, "vim") {
        "\u{e62b}"
    } else if str_eq(e, "git") || str_eq(e, "gitignore") {
        "\u{f1d3}"
    } else if str_eq(e, "docker") || str_eq(e, "dockerfile") {
        "\u{f308}"
    } else {
        "\u{f016}"
    }
}

/// Icon for a file extension, compared without regard to case.
pub fn icon_for_extension(ext: &str) -> (r: &'static str)
    ensures
        r@ == spec_icon_for_lowercase(spec_lowercase(ext@)),
{
    let lower = to_lowercase(ext);
    icon_for_lowercase_extension(lower.as_str())
}

/// Extensions that the text preview recognises (compared case-sensitively).
pub open spec fn is_text_extension(e: Seq<char>) -> bool {
    e == "txt"@ || e == "md"@ || e == "rs"@ || e == "py"@ || e == "js"@ || e == "ts"@ || e
        == "jsx"@ || e == "tsx"@ || e == "c"@ || e == "cpp"@ || e == "h"@ || e == "hpp"@ || e
        == "java"@ || e == "go"@ || e == "rb"@ || e == "sh"@ || e == "bash"@ || e == "zsh"@ || e
        == "fish"@ || e == "toml"@ || e == "yaml"@ || e == "yml"@ || e == "json"@ || e == "xml"@
        || e == "html"@ || e == "css"@ || e == "scss"@ || e == "lua"@ || e == "vim"@ || e
        == "el"@ || e == "lisp"@ || e == "sql"@ || e == "zig"@ || e == "swift"@ || e == "kt"@
        || e == "scala"@ || e == "r"@ || e == "R"@ || e == "makefile"@ || e == "dockerfile"@
        || e == "gitignore"@ || e == "env"@ || e == "ini"@ || e == "cfg"@ || e == "conf"@ || e
        == "log"@
}

/// Image extensions (after lowercasing).
pub open spec fn is_image_extension(e: Seq<char>) -> bool {
    e == "png"@ || e == "jpg"@ || e == "jpeg"@ || e == "gif"@ || e == "bmp"@ || e == "webp"@
        || e == "tiff"@ || e == "ico"@ || e == "svg"@
}

fn text_extension(e: &str) -> (r: bool)
    ensures
        r == is_text_extension(e@),
{
    str_eq(e, "txt") || str_eq(e, "md") || str_eq(e, "rs") || str_eq(e, "py") || str_eq(e, "js")
        || str_eq(e, "ts") || str_eq(e, "jsx") || str_eq(e, "tsx") || str_eq(e, "c") || str_eq(
        e,
        "cpp",
    ) || str_eq(e, "h") || str_eq(e, "hpp") || str_eq(e, "java") || str_eq(e, "go") || str_eq(
        e,
        "rb",
    ) || str_eq(e, "sh") || str_eq(e, "bash") || str_eq(e, "zsh") || str_eq(e, "fish")
        || str_eq(e, "toml") || str_eq(e, "yaml") || str_eq(e, "yml") || str_eq(e, "json")
        || str_eq(e, "xml") || str_eq(e, "html") || str_eq(e, "css") || str_eq(e, "scss")
        || str_eq(e, "lua") || str_eq(e, "vim") || str_eq(e, "el") || str_eq(e, "lisp") || str_eq(
        e,
        "sql",
    ) || str_eq(e, "zig") || str_eq(e, "swift") || str_eq(e, "kt") || str_eq(e, "scala")
        || str_eq(e, "r") || str_eq(e, "R") || str_eq(e, "makefile") || str_eq(e, "dockerfile")
        || str_eq(e, "gitignore") || str_eq(e, "env") || str_eq(e, "ini") || str_eq(e, "cfg")
        || str_eq(e, "conf") || str_eq(e, "log")
}

/// Whether an already lowercased extension names an image format.
pub fn image_extension(e: &str) -> (r: bool)
    ensures
        r == is_image_extension(e@),
{
    str_eq(e, "png") || str_eq(e, "jpg") || str_eq(e, "jpeg") || str_eq(e, "gif") || str_eq(
        e,
        "bmp",
    ) || str_eq(e, "webp") || str_eq(e, "tiff") || str_eq(e, "ico") || str_eq(e, "svg")
}

/// The icon shown for an entry.
pub open spec fn spec_entry_icon(kind: EntryKind, path: Seq<char>) -> Seq<char> {
    match kind {
        EntryKind::Directory => "\u{f115}"@,
        EntryKind::Symlink => "\u{f0c1}"@,
        EntryKind::File => spec_icon_for_lowercase(spec_lowercase(spec_extension_or_empty(path))),
        _ => "\u{f016}"@,
    }
}

impl FileEntry {
    pub fn icon(&self) -> (r: &'static str)
        ensures
            r@ == spec_entry_icon(self.kind, self.path@),
    {
        match self.kind {
            EntryKind::Directory => "\u{f115}",
            EntryKind::Symlink => "\u{f0c1}",
            EntryKind::File => {
                let ext = extension_or_empty(self.path.as_str());
                icon_for_extension(ext.as_str())
            },
            _ => "\u{f016}",
        }
    }

    pub fn is_text_file(&self) -> (r: bool)
        ensures
            r == (self.kind == EntryKind::File && is_text_extension(
                spec_extension_or_empty(self.path@),
            )),
    {
        if self.kind != EntryKind::File {
            return false;
        }
        let ext = extension_or_empty(self.path.as_str());
        text_extension(ext.as_str())
    }

    pub fn is_image_file(&self) -> (r: bool)
        ensures
            r == (self.kind == EntryKind::File && is_image_extension(
                spec_lowercase(spec_extension_or_empty(self.path@)),
            )),
    {
        if self.kind != EntryKind::File {
            return false;
        }
        let ext = extension_or_empty(self.path.as_str());
        let lower = to_lowercase(ext.as_str());
        image_extension(lower.as_str())
    }
}

/// The file-type flags of a directory entry's metadata.
#[derive(Clone, Copy, Debug)]
pub struct FileTypeFlags {
    pub is_dir: bool,
    pub is_file: bool,
    pub is_symlink: bool,
    pub is_fifo: bool,
    pub is_socket: bool,
    pub is_block_device: bool,
    pub is_char_device: bool,
}

pub open spec fn spec_determine_kind(f: FileTypeFlags) -> EntryKind {
    if f.is_dir {
        EntryKind::Directory
    } else if f.is_file {
        EntryKind::File
    } else if f.is_fifo {
        EntryKind::Pipe
    } else if f.is_socket {
        EntryKind::Socket
    } else if f.is_block_device {
        EntryKind::BlockDevice
    } else if f.is_char_device {
        EntryKind::CharDevice
    } else {
        EntryKind::Unknown
    }
}

/// The kind of an entry that is not a symbolic link, from its file-type flags.
pub fn determine_kind(f: &FileTypeFlags) -> (r: EntryKind)
    ensures
        r == spec_determine_kind(*f),
{
    if f.is_dir {
        EntryKind::Directory
    } else if f.is_file {
        EntryKind::File
    } else if f.is_fifo {
        EntryKind::Pipe
    } else if f.is_socket {
        EntryKind::Socket
    } else if f.is_block_device {
        EntryKind::BlockDevice
    } else if f.is_char_device {
        EntryKind::CharDevice
    } else {
        EntryKind::Unknown
    }
}

/// What a listing records of one directory entry before it becomes a
/// [`FileEntry`]: `link_flags` are the file-type flags of the entry itself,
/// read without following a symbolic link.
pub struct RawEntry {
    pub name: String,
    pub path: String,
    pub link_flags: FileTypeFlags,
    pub mode: u32,
    pub size: u64,
    pub modified: Option<i128>,
    pub symlink_target: Option<String>,
}

/// The kind recorded for a raw entry. For a symbolic link the entry's own
/// flags are read (a link's own type is neither directory nor file, so it is a
/// `Symlink`).
pub open spec fn spec_raw_kind(raw: RawEntry) -> EntryKind {
    if raw.link_flags.is_symlink {
        if raw.link_flags.is_dir {
            EntryKind::Directory
        } else if raw.link_flags.is_file {
            EntryKind::File
        } else {
            EntryKind::Symlink
        }
    } else {
        spec_determine_kind(raw.link_flags)
    }
}

/// Builds the listing entry for a raw directory entry.
pub fn entry_from_raw(raw: RawEntry) -> (e: FileEntry)
    ensures
        e.name == raw.name,
        e.path == raw.path,
        e.kind == spec_raw_kind(raw),
        e.size == raw.size,
        e.modified == raw.modified,
        e.permissions == spec_permissions_from_mode(raw.mode),
        e.is_hidden == (raw.name@.len() > 0 && raw.name@[0] == '.'),
        e.is_symlink == raw.link_flags.is_symlink,
        e.symlink_target == (if raw.link_flags.is_symlink {
            raw.symlink_target
        } else {
            None
        }),
{
    let ghost old_raw = raw;
    let chars = crate::text::chars_of(raw.name.as_str());
    let is_hidden = chars.len() > 0 && chars[0] == '.';
    let (kind, is_symlink, symlink_target) = if raw.link_flags.is_symlink {
        let k = if raw.link_flags.is_dir {
            EntryKind::Directory
        } else if raw.link_flags.is_file {
            EntryKind::File
        } else {
            EntryKind::Symlink
        };
        (k, true, raw.symlink_target)
    } else {
        (determine_kind(&raw.link_flags), false, None)
    };
    FileEntry {
        name: raw.name,
        path: raw.path,
        kind,
        size: raw.size,
        modified: raw.modified,
        permissions: Permissions::from_mode(raw.mode),
        is_hidden,
        is_symlink,
        symlink_target,
    }
}

} // verus!
