//! The application state and the decisions it makes: cursor movement,
//! selection, modes, search and filter, and the file operations it asks for.
//! The state machine never does input or output itself: a command yields an
//! [`AppAction`] to perform, and the outcome is fed back through
//! [`App::resume`].

use vstd::prelude::*;
use crate::clock::Clock;
use crate::config::{spec_sort_field, spec_user_bindings, Config};
use crate::entry::{EntryKind, FileEntry};
use crate::error::joined;
use crate::paths::{path_file_name, path_join, path_parent, spec_path_file_name, spec_path_join, spec_path_parent};
use crate::event::{spec_next_field, AppCommand, SortField};
use crate::keymap::{
    default_bindings, default_keymap, key_g, spec_merge, KeyCombo, KeyContext, Keymap, KeymapView,
};
use crate::sort::{entry_order, sort_entries};
use crate::sorting::{is_stable_sort_of, Order};
use crate::text::{
    decimal, str_eq, is_substring, push_decimal, spec_lowercase, str_contains, string_pop, string_push,
    strings_view, to_lowercase,
};

verus! {

#[derive(Debug, Clone)]
pub enum AppMode {
    Normal,
    Visual,
    Command,
    Search,
    Filter,
    Confirm(ConfirmAction),
    Input(InputContext),
}

#[derive(Debug, Clone)]
pub enum ConfirmAction {
    Delete(Vec<String>),
}

#[derive(Debug, Clone)]
pub enum InputContext {
    Rename { original: String },
    CreateFile,
    CreateDir,
    Search,
    Filter,
    Command,
}

#[derive(Debug, Clone)]
pub struct Clipboard {
    pub operation: ClipboardOp,
    pub paths: Vec<String>,
}

#[derive(Debug, Clone, Copy, PartialEq, Eq, Structural)]
pub enum ClipboardOp {
    Copy,
    Cut,
}

/// A status line message; `expires` is a time on the application's clock, in
/// nanoseconds.
#[derive(Debug, Clone)]
pub struct StatusMessage {
    pub text: String,
    pub level: StatusLevel,
    pub expires: u64,
}

#[derive(Debug, Clone, Copy, PartialEq, Eq, Structural)]
pub enum StatusLevel {
    Info,
    Warning,
    Error,
}

/// What the application asks its driver to do next.
#[derive(Debug)]
pub enum AppAction {
    /// Nothing more to do for this command.
    Done,
    /// List `dir`, and `parent` when given, then resume with a `Listing`.
    ReadDirectory { dir: String, parent: Option<String> },
    /// Copy each source into `dest`, then resume with the `Count` copied.
    CopyEntries { sources: Vec<String>, dest: String },
    /// Move each source into `dest`, then resume with the `Count` moved.
    MoveEntries { sources: Vec<String>, dest: String },
    /// Delete each target, then resume with the `Count` deleted.
    DeleteEntries { targets: Vec<String> },
    /// Rename `from` to `to`, then resume with `Done`.
    RenameEntry { from: String, to: String },
    /// Create an empty file, then resume with `Done`.
    CreateFile { path: String },
    /// Create a directory, then resume with `Done`.
    CreateDirectory { path: String },
}

/// The outcome of an action, fed back to [`App::resume`].
#[derive(Debug)]
pub enum IoOutcome {
    /// The entries of the directory read, and of its parent when the parent was
    /// asked for and could be read.
    Listing { entries: Vec<FileEntry>, parent: Option<Vec<FileEntry>> },
    Count(usize),
    Done,
}

/// The step an action in flight belongs to.
#[derive(Debug, Clone)]
pub enum Pending {
    Idle,
    AfterCopy,
    AfterMove,
    AfterDeleteOne,
    AfterDeleteMany,
    AfterConfirmedDelete,
    AfterRename { new_name: String },
    AfterCreateFile { name: String },
    AfterCreateDir { name: String },
    /// The directory is being read again; `had_parent` says whether its parent
    /// was asked for, `focus` names the entry to put the cursor on.
    AfterReload { had_parent: bool, focus: Option<String> },
}

pub struct App {
    // Navigation
    pub current_dir: String,
    pub parent_entries: Vec<FileEntry>,
    pub entries: Vec<FileEntry>,
    pub filtered_indices: Vec<usize>,
    pub cursor_index: usize,
    pub scroll_offset: usize,
    // Selection: positions in `entries`, each at most once
    pub selected: Vec<usize>,
    pub visual_anchor: Option<usize>,
    pub clipboard: Option<Clipboard>,
    // Display
    pub show_hidden: bool,
    pub sort_field: SortField,
    pub sort_ascending: bool,
    pub filter: Option<String>,
    pub search_query: Option<String>,
    // Mode
    pub mode: AppMode,
    pub input_buffer: String,
    // Layout
    pub show_preview: bool,
    pub pane_ratios: [u16; 3],
    // Status
    pub status_message: Option<StatusMessage>,
    // Directory history
    pub history: Vec<String>,
    pub history_index: usize,
    // Keymap
    pub keymap: Keymap,
    // Config
    pub config: Config,
    // Should quit flag
    pub should_quit: bool,
    // The action in flight
    pub pending: Pending,
    // The clock status messages are timed on
    pub clock: Clock,
}


// ---------------------------------------------------------------------------
// The state as plain values
// ---------------------------------------------------------------------------

pub enum ModeView {
    Normal,
    Visual,
    Command,
    Search,
    Filter,
    ConfirmDelete(Seq<Seq<char>>),
    Rename(Seq<char>),
    CreateFile,
    CreateDir,
    InputSearch,
    InputFilter,
    InputCommand,
}

impl View for AppMode {
    type V = ModeView;

    open spec fn view(&self) -> ModeView {
        match self {
            AppMode::Normal => ModeView::Normal,
            AppMode::Visual => ModeView::Visual,
            AppMode::Command => ModeView::Command,
            AppMode::Search => ModeView::Search,
            AppMode::Filter => ModeView::Filter,
            AppMode::Confirm(ConfirmAction::Delete(paths)) => ModeView::ConfirmDelete(
                strings_view(paths@),
            ),
            AppMode::Input(InputContext::Rename { original }) => ModeView::Rename(original@),
            AppMode::Input(InputContext::CreateFile) => ModeView::CreateFile,
            AppMode::Input(InputContext::CreateDir) => ModeView::CreateDir,
            AppMode::Input(InputContext::Search) => ModeView::InputSearch,
            AppMode::Input(InputContext::Filter) => ModeView::InputFilter,
            AppMode::Input(InputContext::Command) => ModeView::InputCommand,
        }
    }
}

pub struct ClipboardView {
    pub operation: ClipboardOp,
    pub paths: Seq<Seq<char>>,
}

pub struct StatusView {
    pub text: Seq<char>,
    pub level: StatusLevel,
    pub expires: u64,
}

pub enum PendingView {
    Idle,
    AfterCopy,
    AfterMove,
    AfterDeleteOne,
    AfterDeleteMany,
    AfterConfirmedDelete,
    AfterRename(Seq<char>),
    AfterCreateFile(Seq<char>),
    AfterCreateDir(Seq<char>),
    AfterReload { had_parent: bool, focus: Option<Seq<char>> },
}

impl View for Pending {
    type V = PendingView;

    open spec fn view(&self) -> PendingView {
        match self {
            Pending::Idle => PendingView::Idle,
            Pending::AfterCopy => PendingView::AfterCopy,
            Pending::AfterMove => PendingView::AfterMove,
            Pending::AfterDeleteOne => PendingView::AfterDeleteOne,
            Pending::AfterDeleteMany => PendingView::AfterDeleteMany,
            Pending::AfterConfirmedDelete => PendingView::AfterConfirmedDelete,
            Pending::AfterRename { new_name } => PendingView::AfterRename(new_name@),
            Pending::AfterCreateFile { name } => PendingView::AfterCreateFile(name@),
            Pending::AfterCreateDir { name } => PendingView::AfterCreateDir(name@),
            Pending::AfterReload { had_parent, focus } => PendingView::AfterReload {
                had_parent: *had_parent,
                focus: opt_string_view(*focus),
            },
        }
    }
}

pub enum ActionView {
    Done,
    ReadDirectory { dir: Seq<char>, parent: Option<Seq<char>> },
    CopyEntries { sources: Seq<Seq<char>>, dest: Seq<char> },
    MoveEntries { sources: Seq<Seq<char>>, dest: Seq<char> },
    DeleteEntries { targets: Seq<Seq<char>> },
    RenameEntry { from: Seq<char>, to: Seq<char> },
    CreateFile { path: Seq<char> },
    CreateDirectory { path: Seq<char> },
}

impl View for AppAction {
    type V = ActionView;

    open spec fn view(&self) -> ActionView {
        match self {
            AppAction::Done => ActionView::Done,
            AppAction::ReadDirectory { dir, parent } => ActionView::ReadDirectory {
                dir: dir@,
                parent: opt_string_view(*parent),
            },
            AppAction::CopyEntries { sources, dest } => ActionView::CopyEntries {
                sources: strings_view(sources@),
                dest: dest@,
            },
            AppAction::MoveEntries { sources, dest } => ActionView::MoveEntries {
                sources: strings_view(sources@),
                dest: dest@,
            },
            AppAction::DeleteEntries { targets } => ActionView::DeleteEntries {
                targets: strings_view(targets@),
            },
            AppAction::RenameEntry { from, to } => ActionView::RenameEntry { from: from@, to: to@ },
            AppAction::CreateFile { path } => ActionView::CreateFile { path: path@ },
            AppAction::CreateDirectory { path } => ActionView::CreateDirectory { path: path@ },
        }
    }
}

pub enum OutcomeView {
    Listing { entries: Seq<FileEntry>, parent: Option<Seq<FileEntry>> },
    Count(usize),
    Done,
}

impl View for IoOutcome {
    type V = OutcomeView;

    open spec fn view(&self) -> OutcomeView {
        match self {
            IoOutcome::Listing { entries, parent } => OutcomeView::Listing {
                entries: entries@,
                parent: match parent {
                    Some(p) => Some(p@),
                    None => None,
                },
            },
            IoOutcome::Count(n) => OutcomeView::Count(*n),
            IoOutcome::Done => OutcomeView::Done,
        }
    }
}

/// The whole application state as plain values.
pub struct AppView {
    pub current_dir: Seq<char>,
    pub parent_entries: Seq<FileEntry>,
    pub entries: Seq<FileEntry>,
    pub filtered: Seq<usize>,
    pub cursor: usize,
    pub scroll: usize,
    pub selected: Seq<usize>,
    pub visual_anchor: Option<usize>,
    pub clipboard: Option<ClipboardView>,
    pub show_hidden: bool,
    pub sort_field: SortField,
    pub sort_ascending: bool,
    pub filter: Option<Seq<char>>,
    pub search_query: Option<Seq<char>>,
    pub mode: ModeView,
    pub input: Seq<char>,
    pub show_preview: bool,
    pub pane_ratios: [u16; 3],
    pub status: Option<StatusView>,
    pub history: Seq<Seq<char>>,
    pub history_index: usize,
    pub keymap: KeymapView,
    pub config: Config,
    pub should_quit: bool,
    pub pending: PendingView,
}

pub open spec fn opt_string_view(o: Option<String>) -> Option<Seq<char>> {
    match o {
        Some(s) => Some(s@),
        None => None,
    }
}

impl View for App {
    type V = AppView;

    open spec fn view(&self) -> AppView {
        AppView {
            current_dir: self.current_dir@,
            parent_entries: self.parent_entries@,
            entries: self.entries@,
            filtered: self.filtered_indices@,
            cursor: self.cursor_index,
            scroll: self.scroll_offset,
            selected: self.selected@,
            visual_anchor: self.visual_anchor,
            clipboard: match self.clipboard {
                Some(c) => Some(ClipboardView { operation: c.operation, paths: strings_view(c.paths@) }),
                None => None,
            },
            show_hidden: self.show_hidden,
            sort_field: self.sort_field,
            sort_ascending: self.sort_ascending,
            filter: opt_string_view(self.filter),
            search_query: opt_string_view(self.search_query),
            mode: self.mode@,
            input: self.input_buffer@,
            show_preview: self.show_preview,
            pane_ratios: self.pane_ratios,
            status: match self.status_message {
                Some(m) => Some(StatusView { text: m.text@, level: m.level, expires: m.expires }),
                None => None,
            },
            history: strings_view(self.history@),
            history_index: self.history_index,
            keymap: self.keymap@,
            config: self.config,
            should_quit: self.should_quit,
            pending: self.pending@,
        }
    }
}

// ---------------------------------------------------------------------------
// Listing, filter and cursor
// ---------------------------------------------------------------------------

/// Whether an entry is shown, given the hidden-files switch and the filter:
/// the filter matches names that contain it, ignoring case.
pub open spec fn entry_visible(e: FileEntry, show_hidden: bool, filter: Option<Seq<char>>) -> bool {
    &&& (show_hidden || !e.is_hidden)
    &&& match filter {
        Some(f) => is_substring(spec_lowercase(f), spec_lowercase(e.name@)),
        None => true,
    }
}

/// The positions of the shown entries, in listing order.
pub open spec fn spec_filtered(entries: Seq<FileEntry>, show_hidden: bool, filter: Option<Seq<char>>) -> Seq<
    usize,
>
    decreases entries.len(),
{
    if entries.len() == 0 {
        Seq::empty()
    } else {
        let prev = spec_filtered(entries.drop_last(), show_hidden, filter);
        if entry_visible(entries.last(), show_hidden, filter) {
            prev.push((entries.len() - 1) as usize)
        } else {
            prev
        }
    }
}

/// The indices are strictly increasing and below `n`.
pub open spec fn increasing_below(s: Seq<usize>, n: nat) -> bool {
    &&& forall|i: int, j: int| 0 <= i < j < s.len() ==> #[trigger] s[i] < #[trigger] s[j]
    &&& forall|i: int| 0 <= i < s.len() ==> #[trigger] s[i] < n
}

/// The cursor after the visible list changed to `len` entries.
pub open spec fn clamp_cursor(cursor: usize, len: nat) -> usize {
    if len > 0 {
        if cursor < len - 1 {
            cursor
        } else {
            (len - 1) as usize
        }
    } else {
        0
    }
}

impl AppView {
    /// The state's invariants: the visible positions are increasing and inside
    /// the listing, the cursor is on a visible entry (or at 0 when none is),
    /// no position is selected twice, and the history position is in range.
    pub open spec fn wf(self) -> bool {
        &&& self.base_wf()
        &&& increasing_below(self.filtered, self.entries.len())
        &&& self.filtered.len() <= self.entries.len()
        &&& (self.cursor == 0 || self.cursor < self.filtered.len())
    }

    /// The invariants that do not involve the visible list.
    pub open spec fn base_wf(self) -> bool {
        &&& self.entries.len() <= isize::MAX
        &&& self.selected.no_duplicates()
        &&& self.history_index < self.history.len()
        &&& self.history.len() <= usize::MAX
        &&& self.history[self.history_index as int] == self.current_dir
    }

    /// The listing is filtered again; the cursor stays, clamped to the list.
    pub open spec fn refiltered(self) -> AppView {
        let f = spec_filtered(self.entries, self.show_hidden, self.filter);
        AppView { filtered: f, cursor: clamp_cursor(self.cursor, f.len()), ..self }
    }

    /// The key context that the mode gives.
    pub open spec fn key_context(self) -> KeyContext {
        match self.mode {
            ModeView::Normal => KeyContext::Normal,
            ModeView::Visual => KeyContext::Visual,
            ModeView::Search | ModeView::Filter => KeyContext::Search,
            ModeView::Command => KeyContext::Command,
            _ => KeyContext::Normal,
        }
    }

    /// Whether keys go to the input line.
    pub open spec fn is_input_mode(self) -> bool {
        match self.mode {
            ModeView::Normal | ModeView::Visual | ModeView::ConfirmDelete(_) => false,
            _ => true,
        }
    }

    /// The position in the listing of the entry under the cursor.
    pub open spec fn current_real_index(self) -> Option<usize> {
        if self.cursor < self.filtered.len() {
            Some(self.filtered[self.cursor as int])
        } else {
            None
        }
    }
}

impl App {
    pub open spec fn wf(&self) -> bool {
        &&& self@.wf()
        &&& self.history_index < self.history@.len()
        &&& self.keymap.wf()
    }

    pub open spec fn base_wf(&self) -> bool {
        &&& self@.base_wf()
        &&& self.history_index < self.history@.len()
        &&& self.keymap.wf()
    }
}

// ---------------------------------------------------------------------------
// The transitions, as functions on plain values
// ---------------------------------------------------------------------------

/// How far a page moves the cursor.
pub const PAGE_SIZE: usize = 20;

/// How long a status message stays, in nanoseconds.
pub const STATUS_LIFETIME: u64 = 3_000_000_000;

/// When a status message set at `now` expires (saturating at the end of time).
pub open spec fn expiry(now: u64) -> u64 {
    if now <= u64::MAX - STATUS_LIFETIME {
        (now + STATUS_LIFETIME) as u64
    } else {
        u64::MAX
    }
}

/// The path of the entry at a position of the listing, if there is one.
pub open spec fn path_at(entries: Seq<FileEntry>) -> spec_fn(usize) -> Option<Seq<char>> {
    |i: usize|
        if i < entries.len() {
            Some(entries[i as int].path@)
        } else {
            None
        }
}

/// The visible positions from the anchor to the cursor, both included, in
/// list order, as far as they are inside the list.
pub open spec fn visual_range(filtered: Seq<usize>, anchor: usize, cursor: usize) -> Seq<usize> {
    let start: int = if anchor <= cursor { anchor as int } else { cursor as int };
    let end: int = if anchor <= cursor { cursor as int } else { anchor as int };
    let lo: int = if start < filtered.len() { start } else { filtered.len() as int };
    let hi: int = if end < filtered.len() { end + 1 } else { filtered.len() as int };
    filtered.subrange(lo, hi)
}

impl AppView {
    /// In visual mode the selection spans the anchor to the cursor.
    pub open spec fn with_visual_update(self) -> AppView {
        match self.visual_anchor {
            Some(a) => AppView { selected: visual_range(self.filtered, a, self.cursor), ..self },
            None => self,
        }
    }

    pub open spec fn moved_to(self, cursor: usize) -> AppView {
        let w = AppView { cursor, ..self };
        if w.mode is Visual {
            w.with_visual_update()
        } else {
            w
        }
    }

    pub open spec fn after_cursor_up(self) -> AppView {
        if self.cursor > 0 {
            self.moved_to((self.cursor - 1) as usize)
        } else {
            self
        }
    }

    pub open spec fn after_cursor_down(self) -> AppView {
        if self.cursor + 1 < self.filtered.len() {
            self.moved_to((self.cursor + 1) as usize)
        } else {
            self
        }
    }

    pub open spec fn after_cursor_top(self) -> AppView {
        AppView { cursor: 0, scroll: 0, ..self }
    }

    pub open spec fn after_cursor_bottom(self) -> AppView {
        if self.filtered.len() > 0 {
            AppView { cursor: (self.filtered.len() - 1) as usize, ..self }
        } else {
            self
        }
    }

    pub open spec fn after_page_up(self) -> AppView {
        AppView {
            cursor: if self.cursor >= PAGE_SIZE {
                (self.cursor - PAGE_SIZE) as usize
            } else {
                0
            },
            ..self
        }
    }

    pub open spec fn after_page_down(self) -> AppView {
        let max: int = if self.filtered.len() > 0 { self.filtered.len() - 1 } else { 0 };
        AppView {
            cursor: if self.cursor + PAGE_SIZE <= max {
                (self.cursor + PAGE_SIZE) as usize
            } else {
                max as usize
            },
            ..self
        }
    }

    /// Toggles the entry under the cursor in the selection, then moves down.
    pub open spec fn after_toggle_select(self) -> AppView {
        match self.current_real_index() {
            Some(i) => {
                let sel = if self.selected.contains(i) {
                    self.selected.remove_value(i)
                } else {
                    self.selected.push(i)
                };
                AppView { selected: sel, ..self }.after_cursor_down()
            },
            None => self,
        }
    }

    pub open spec fn after_select_all(self) -> AppView {
        AppView { selected: self.filtered, ..self }
    }

    pub open spec fn after_clear_selection(self) -> AppView {
        AppView { selected: Seq::empty(), ..self }
    }

    pub open spec fn after_enter_visual(self) -> AppView {
        AppView {
            mode: ModeView::Visual,
            visual_anchor: Some(self.cursor),
            selected: match self.current_real_index() {
                Some(i) => seq![i],
                None => Seq::empty(),
            },
            ..self
        }
    }

    pub open spec fn after_enter_normal(self) -> AppView {
        AppView { mode: ModeView::Normal, visual_anchor: None, ..self }
    }

    /// The paths of the selected entries, in selection order; a position that is
    /// no longer in the listing is skipped.
    pub open spec fn selected_paths(self) -> Seq<Seq<char>> {
        self.selected.filter_map(path_at(self.entries))
    }

    pub open spec fn with_status(self, text: Seq<char>, level: StatusLevel, now: u64) -> AppView {
        AppView { status: Some(StatusView { text, level, expires: expiry(now) }), ..self }
    }

    /// Copy or cut: the selected paths go to the clipboard.
    pub open spec fn after_clip(self, op: ClipboardOp, now: u64) -> AppView {
        let paths = self.selected_paths();
        if paths.len() > 0 {
            let text = match op {
                ClipboardOp::Copy => decimal(self.selected.len()) + " item(s) copied"@,
                ClipboardOp::Cut => decimal(self.selected.len()) + " item(s) cut"@,
            };
            AppView {
                clipboard: Some(ClipboardView { operation: op, paths }),
                ..self
            }.with_status(text, StatusLevel::Info, now).after_enter_normal()
        } else {
            self
        }
    }

    pub open spec fn after_start_rename(self) -> AppView {
        match self.current_real_index() {
            Some(i) => AppView {
                input: self.entries[i as int].name@,
                mode: ModeView::Rename(self.entries[i as int].name@),
                ..self
            },
            None => self,
        }
    }

    pub open spec fn with_mode_and_empty_input(self, mode: ModeView) -> AppView {
        AppView { mode, input: Seq::empty(), ..self }
    }

    /// Whether the visible entry at `idx` matches the query, ignoring case.
    pub open spec fn search_hit(self, q: Seq<char>, idx: int) -> bool {
        is_substring(
            spec_lowercase(q),
            spec_lowercase(self.entries[self.filtered[idx] as int].name@),
        )
    }

    /// The first match found going down from below the cursor, wrapping
    /// around, looking at the `i`-th candidate and after.
    pub open spec fn next_hit(self, q: Seq<char>, i: nat) -> Option<usize>
        decreases self.filtered.len() - i,
    {
        if i >= self.filtered.len() {
            None
        } else {
            let idx = ((self.cursor + 1 + i) % (self.filtered.len() as int)) as usize;
            if self.search_hit(q, idx as int) {
                Some(idx)
            } else {
                self.next_hit(q, i + 1)
            }
        }
    }

    /// The first match found going up from above the cursor, wrapping around,
    /// looking `i` steps up and further.
    pub open spec fn prev_hit(self, q: Seq<char>, i: nat) -> Option<usize>
        decreases self.filtered.len() + 1 - i,
    {
        if i == 0 || i > self.filtered.len() {
            None
        } else {
            let len = self.filtered.len() as int;
            let idx = ((self.cursor + len - i) % len) as usize;
            if self.search_hit(q, idx as int) {
                Some(idx)
            } else {
                self.prev_hit(q, i + 1)
            }
        }
    }

    pub open spec fn after_search_next(self) -> AppView {
        match self.search_query {
            Some(q) => match self.next_hit(q, 0) {
                Some(idx) => AppView { cursor: idx, ..self },
                None => self,
            },
            None => self,
        }
    }

    pub open spec fn after_search_prev(self) -> AppView {
        match self.search_query {
            Some(q) => match self.prev_hit(q, 1) {
                Some(idx) => AppView { cursor: idx, ..self },
                None => self,
            },
            None => self,
        }
    }
}

// ---------------------------------------------------------------------------
// The transitions
// ---------------------------------------------------------------------------

/// `n` followed by `suffix`, as in "3 item(s) copied".
fn count_text(n: usize, suffix: &str) -> (r: String)
    ensures
        r@ == decimal(n as nat) + suffix@,
{
    let mut s = String::new();
    push_decimal(&mut s, n as u64);
    s.append(suffix);
    s
}

impl App {
    /// The entry under the cursor.
    pub fn current_entry(&self) -> (r: Option<&FileEntry>)
        requires
            self.wf(),
        ensures
            match r {
                Some(e) => self@.current_real_index() == Some(
                    self.filtered_indices@[self.cursor_index as int],
                ) && *e == self@.entries[self.filtered_indices@[self.cursor_index as int] as int],
                None => self@.current_real_index() is None,
            },
    {
        if self.cursor_index < self.filtered_indices.len() {
            let i = self.filtered_indices[self.cursor_index];
            Some(&self.entries[i])
        } else {
            None
        }
    }

    /// The position in the listing of the entry under the cursor.
    pub fn current_entry_real_index(&self) -> (r: Option<usize>)
        ensures
            r == self@.current_real_index(),
    {
        if self.cursor_index < self.filtered_indices.len() {
            Some(self.filtered_indices[self.cursor_index])
        } else {
            None
        }
    }

    /// The shown entries, in list order.
    pub fn visible_entries(&self) -> (r: Vec<&FileEntry>)
        requires
            self.wf(),
        ensures
            r@.len() == self@.filtered.len(),
            forall|k: int|
                0 <= k < r@.len() ==> *#[trigger] r@[k] == self@.entries[self@.filtered[k] as int],
    {
        let mut r: Vec<&FileEntry> = Vec::new();
        let mut k: usize = 0;
        while k < self.filtered_indices.len()
            invariant
                self.wf(),
                k <= self.filtered_indices.len(),
                r@.len() == k,
                forall|j: int|
                    0 <= j < k ==> *#[trigger] r@[j] == self@.entries[self@.filtered[j] as int],
            decreases self.filtered_indices.len() - k,
        {
            let i = self.filtered_indices[k];
            r.push(&self.entries[i]);
            k = k + 1;
        }
        r
    }

    /// The key context that the mode gives.
    pub fn key_context(&self) -> (r: KeyContext)
        ensures
            r == self@.key_context(),
    {
        match self.mode {
            AppMode::Normal => KeyContext::Normal,
            AppMode::Visual => KeyContext::Visual,
            AppMode::Search | AppMode::Filter => KeyContext::Search,
            AppMode::Command => KeyContext::Command,
            _ => KeyContext::Normal,
        }
    }

    /// Whether keys go to the input line.
    pub fn is_input_mode(&self) -> (r: bool)
        ensures
            r == self@.is_input_mode(),
    {
        match self.mode {
            AppMode::Search | AppMode::Filter | AppMode::Command | AppMode::Input(_) => true,
            _ => false,
        }
    }

    fn update_visual_selection(&mut self)
        requires
            old(self).wf(),
        ensures
            final(self).wf(),
            final(self)@ == old(self)@.with_visual_update(),
    {
        if let Some(anchor) = self.visual_anchor {
            let start = if anchor <= self.cursor_index {
                anchor
            } else {
                self.cursor_index
            };
            let end = if anchor <= self.cursor_index {
                self.cursor_index
            } else {
                anchor
            };
            let len = self.filtered_indices.len();
            let lo = if start < len {
                start
            } else {
                len
            };
            let hi = if end < len {
                end + 1
            } else {
                len
            };
            let mut sel: Vec<usize> = Vec::new();
            let mut i = lo;
            while i < hi
                invariant
                    lo <= i <= hi <= len,
                    len == self.filtered_indices@.len(),
                    sel@ == self.filtered_indices@.subrange(lo as int, i as int),
                decreases hi - i,
            {
                sel.push(self.filtered_indices[i]);
                i = i + 1;
            }
            proof {
                let f = self.filtered_indices@;
                assert forall|a: int, b: int| 0 <= a < sel@.len() && 0 <= b < sel@.len() && a != b
                    implies sel@[a] != sel@[b] by {
                    if a < b {
                        assert(f[lo + a] < f[lo + b]);
                    } else {
                        assert(f[lo + b] < f[lo + a]);
                    }
                }
            }
            self.selected = sel;
        }
    }

    fn move_cursor_to(&mut self, cursor: usize)
        requires
            old(self).wf(),
            cursor < old(self).filtered_indices.len(),
        ensures
            final(self).wf(),
            final(self)@ == old(self)@.moved_to(cursor),
    {
        self.cursor_index = cursor;
        if matches!(self.mode, AppMode::Visual) {
            self.update_visual_selection();
        }
    }

    fn cursor_up(&mut self)
        requires
            old(self).wf(),
        ensures
            final(self).wf(),
            final(self)@ == old(self)@.after_cursor_up(),
    {
        if self.cursor_index > 0 {
            self.move_cursor_to(self.cursor_index - 1);
        }
    }

    fn cursor_down(&mut self)
        requires
            old(self).wf(),
        ensures
            final(self).wf(),
            final(self)@ == old(self)@.after_cursor_down(),
    {
        if self.cursor_index + 1 < self.filtered_indices.len() {
            self.move_cursor_to(self.cursor_index + 1);
        }
    }

    fn cursor_top(&mut self)
        requires
            old(self).wf(),
        ensures
            final(self).wf(),
            final(self)@ == old(self)@.after_cursor_top(),
    {
        self.cursor_index = 0;
        self.scroll_offset = 0;
    }

    fn cursor_bottom(&mut self)
        requires
            old(self).wf(),
        ensures
            final(self).wf(),
            final(self)@ == old(self)@.after_cursor_bottom(),
    {
        if self.filtered_indices.len() > 0 {
            self.cursor_index = self.filtered_indices.len() - 1;
        }
    }

    fn page_up(&mut self)
        requires
            old(self).wf(),
        ensures
            final(self).wf(),
            final(self)@ == old(self)@.after_page_up(),
    {
        self.cursor_index = self.cursor_index.saturating_sub(PAGE_SIZE);
    }

    fn page_down(&mut self)
        requires
            old(self).wf(),
        ensures
            final(self).wf(),
            final(self)@ == old(self)@.after_page_down(),
    {
        let max = self.filtered_indices.len().saturating_sub(1);
        let next = self.cursor_index + PAGE_SIZE;
        self.cursor_index = if next <= max {
            next
        } else {
            max
        };
    }

    fn toggle_select(&mut self)
        requires
            old(self).wf(),
        ensures
            final(self).wf(),
            final(self)@ == old(self)@.after_toggle_select(),
    {
        if let Some(real_idx) = self.current_entry_real_index() {
            let ghost sel = self.selected@;
            let mut k: usize = 0;
            let mut found = false;
            while k < self.selected.len()
                invariant_except_break
                    !found,
                invariant
                    self.selected@ == sel,
                    k <= sel.len(),
                    forall|j: int| 0 <= j < k ==> sel[j] != real_idx,
                ensures
                    k <= sel.len(),
                    forall|j: int| 0 <= j < k ==> sel[j] != real_idx,
                    found ==> k < sel.len() && sel[k as int] == real_idx,
                    !found ==> k == sel.len(),
                decreases sel.len() - k,
            {
                if self.selected[k] == real_idx {
                    found = true;
                    break;
                }
                k = k + 1;
            }
            proof {
                sel.index_of_first_ensures(real_idx);
            }
            if found {
                proof {
                    assert(sel.contains(real_idx));
                    match sel.index_of_first(real_idx) {
                        Some(f) => {
                            if f < k {
                            } else if f > k {
                            }
                            assert(f == k);
                        },
                        None => {},
                    }
                }
                self.selected.remove(k);
                proof {
                    assert forall|a: int, b: int|
                        0 <= a < self.selected@.len() && 0 <= b < self.selected@.len() && a != b
                        implies self.selected@[a] != self.selected@[b] by {
                        let a2 = if a < k { a } else { a + 1 };
                        let b2 = if b < k { b } else { b + 1 };
                        assert(sel[a2] != sel[b2]);
                    }
                }
            } else {
                proof {
                    assert(!sel.contains(real_idx));
                }
                self.selected.push(real_idx);
            }
            self.cursor_down();
        }
    }

    fn select_all(&mut self)
        requires
            old(self).wf(),
        ensures
            final(self).wf(),
            final(self)@ == old(self)@.after_select_all(),
    {
        self.selected = self.filtered_indices.clone();
        proof {
            let f = self.filtered_indices@;
            assert forall|a: int, b: int| 0 <= a < f.len() && 0 <= b < f.len() && a != b
                implies f[a] != f[b] by {
                if a < b {
                    assert(f[a] < f[b]);
                } else {
                    assert(f[b] < f[a]);
                }
            }
        }
    }

    fn clear_selection(&mut self)
        requires
            old(self).wf(),
        ensures
            final(self).wf(),
            final(self)@ == old(self)@.after_clear_selection(),
    {
        self.selected.clear();
    }

    fn enter_visual_mode(&mut self)
        requires
            old(self).wf(),
        ensures
            final(self).wf(),
            final(self)@ == old(self)@.after_enter_visual(),
    {
        self.mode = AppMode::Visual;
        self.visual_anchor = Some(self.cursor_index);
        self.selected.clear();
        if let Some(real_idx) = self.current_entry_real_index() {
            self.selected.push(real_idx);
        }
    }

    fn enter_normal_mode(&mut self)
        requires
            old(self).wf(),
        ensures
            final(self).wf(),
            final(self)@ == old(self)@.after_enter_normal(),
    {
        self.mode = AppMode::Normal;
        self.visual_anchor = None;
    }
}

impl AppView {
    pub open spec fn after_toggle_hidden(self) -> AppView {
        AppView { show_hidden: !self.show_hidden, ..self }.refiltered()
    }

    /// The listing after a sort: `sorted` is the listing stably sorted by the
    /// current sort settings.
    pub open spec fn resorted(self, sorted: Seq<FileEntry>) -> AppView {
        AppView { entries: sorted, ..self }.refiltered()
    }

    pub open spec fn sort_order(self) -> spec_fn(FileEntry, FileEntry) -> Order {
        entry_order(self.sort_field, self.sort_ascending, self.config.sort.dirs_first)
    }

    pub open spec fn after_tick(self, now: u64) -> AppView {
        match self.status {
            Some(m) => if now > m.expires {
                AppView { status: None, ..self }
            } else {
                self
            },
            None => self,
        }
    }

    pub open spec fn after_cursor_made_visible(self, height: usize) -> AppView {
        if self.cursor < self.scroll {
            AppView { scroll: self.cursor, ..self }
        } else if self.cursor >= self.scroll + height {
            AppView { scroll: (self.cursor - height + 1) as usize, ..self }
        } else {
            self
        }
    }
}

impl App {
    fn rebuild_filtered_indices(&mut self)
        requires
            old(self).base_wf(),
        ensures
            final(self).wf(),
            final(self)@ == old(self)@.refiltered(),
    {
        let ghost entries = self.entries@;
        let ghost filter = opt_string_view(self.filter);
        let filter_lower: Option<String> = match &self.filter {
            Some(f) => Some(to_lowercase(f.as_str())),
            None => None,
        };
        let mut out: Vec<usize> = Vec::new();
        let mut i: usize = 0;
        while i < self.entries.len()
            invariant
                i <= self.entries.len(),
                entries == self.entries@,
                filter == opt_string_view(self.filter),
                match filter {
                    Some(f) => filter_lower is Some && filter_lower->0@ == spec_lowercase(f),
                    None => filter_lower is None,
                },
                out@ == spec_filtered(entries.take(i as int), self.show_hidden, filter),
                increasing_below(out@, i as nat),
                out@.len() <= i,
            decreases self.entries.len() - i,
        {
            let e = &self.entries[i];
            let visible = if !self.show_hidden && e.is_hidden {
                false
            } else {
                match &filter_lower {
                    Some(fl) => {
                        let name = to_lowercase(e.name.as_str());
                        str_contains(name.as_str(), fl.as_str())
                    },
                    None => true,
                }
            };
            assert(entries.take(i + 1).drop_last() =~= entries.take(i as int));
            assert(entries.take(i + 1).last() == entries[i as int]);
            if visible {
                out.push(i);
            }
            i = i + 1;
        }
        assert(entries.take(entries.len() as int) =~= entries);
        self.filtered_indices = out;
        if self.filtered_indices.len() > 0 {
            if self.cursor_index >= self.filtered_indices.len() - 1 {
                self.cursor_index = self.filtered_indices.len() - 1;
            }
        } else {
            self.cursor_index = 0;
        }
    }

    fn resort(&mut self)
        requires
            old(self).wf(),
        ensures
            final(self).wf(),
            is_stable_sort_of(final(self)@.entries, old(self)@.entries, old(self)@.sort_order()),
            final(self)@ == old(self)@.resorted(final(self)@.entries),
    {
        sort_entries(
            &mut self.entries,
            self.sort_field,
            self.sort_ascending,
            self.config.sort.dirs_first,
        );
        self.rebuild_filtered_indices();
    }

    fn toggle_hidden(&mut self)
        requires
            old(self).wf(),
        ensures
            final(self).wf(),
            final(self)@ == old(self)@.after_toggle_hidden(),
    {
        self.show_hidden = !self.show_hidden;
        self.rebuild_filtered_indices();
    }

    fn search_next(&mut self)
        requires
            old(self).wf(),
        ensures
            final(self).wf(),
            final(self)@ == old(self)@.after_search_next(),
    {
        let ghost v = self@;
        let query = match &self.search_query {
            Some(q) => to_lowercase(q.as_str()),
            None => {
                return;
            },
        };
        let ghost q = v.search_query->0;
        let len = self.filtered_indices.len();
        let start = self.cursor_index + 1;
        let mut i: usize = 0;
        while i < len
            invariant
                self@ == v,
                v == old(self)@,
                self.wf(),
                len == v.filtered.len(),
                start == v.cursor + 1,
                v.search_query == Some(q),
                query@ == spec_lowercase(q),
                i <= len,
                v.next_hit(q, 0) == v.next_hit(q, i as nat),
            decreases len - i,
        {
            let idx = (start + i) % len;
            let pos = self.filtered_indices[idx];
            let name = to_lowercase(self.entries[pos].name.as_str());
            if str_contains(name.as_str(), query.as_str()) {
                assert(v.search_hit(q, idx as int));
                assert(v.next_hit(q, i as nat) == Some(idx));
                self.cursor_index = idx;
                return;
            }
            i = i + 1;
        }
    }

    fn search_prev(&mut self)
        requires
            old(self).wf(),
        ensures
            final(self).wf(),
            final(self)@ == old(self)@.after_search_prev(),
    {
        let ghost v = self@;
        let query = match &self.search_query {
            Some(q) => to_lowercase(q.as_str()),
            None => {
                return;
            },
        };
        let ghost q = v.search_query->0;
        let len = self.filtered_indices.len();
        if len == 0 {
            return;
        }
        let mut i: usize = 1;
        while i <= len
            invariant
                self@ == v,
                v == old(self)@,
                self.wf(),
                len == v.filtered.len(),
                len > 0,
                v.search_query == Some(q),
                query@ == spec_lowercase(q),
                1 <= i <= len + 1,
                v.prev_hit(q, 1) == v.prev_hit(q, i as nat),
            decreases len + 1 - i,
        {
            let idx = (self.cursor_index + len - i) % len;
            let pos = self.filtered_indices[idx];
            let name = to_lowercase(self.entries[pos].name.as_str());
            if str_contains(name.as_str(), query.as_str()) {
                self.cursor_index = idx;
                return;
            }
            i = i + 1;
        }
    }

    /// The paths of the selected entries.
    fn get_selected_paths(&self) -> (r: Vec<String>)
        ensures
            strings_view(r@) == self@.selected_paths(),
    {
        let ghost entries = self.entries@;
        let ghost f = path_at(entries);
        let mut out: Vec<String> = Vec::new();
        let mut k: usize = 0;
        while k < self.selected.len()
            invariant
                k <= self.selected.len(),
                entries == self.entries@,
                f == path_at(entries),
                strings_view(out@) == self.selected@.take(k as int).filter_map(f),
            decreases self.selected.len() - k,
        {
            let i = self.selected[k];
            assert(self.selected@.take(k + 1).drop_last() =~= self.selected@.take(k as int));
            assert(self.selected@.take(k + 1).last() == i);
            let ghost before = out@;
            let ghost prefix = self.selected@.take(k + 1);
            if i < self.entries.len() {
                out.push(self.entries[i].path.clone());
                assert(f(i) == Some(entries[i as int].path@));
                assert(prefix.filter_map(f) == prefix.drop_last().filter_map(f) + seq![
                    entries[i as int].path@,
                ]);
                assert(strings_view(out@) =~= strings_view(before) + seq![entries[i as int].path@]);
            } else {
                assert(f(i) is None);
                assert(prefix.filter_map(f) == prefix.drop_last().filter_map(f));
            }
            k = k + 1;
        }
        assert(self.selected@.take(self.selected.len() as int) =~= self.selected@);
        out
    }

    /// Shows a status message at time `now` on the application's clock.
    pub fn set_status_at(&mut self, text: String, level: StatusLevel, now: u64)
        requires
            old(self).wf(),
        ensures
            final(self).wf(),
            final(self)@ == old(self)@.with_status(text@, level, now),
    {
        let expires = if now <= u64::MAX - STATUS_LIFETIME {
            now + STATUS_LIFETIME
        } else {
            u64::MAX
        };
        self.status_message = Some(StatusMessage { text, level, expires });
    }

    /// Shows a status message for a few seconds from now.
    pub fn set_status(&mut self, text: String, level: StatusLevel)
        requires
            old(self).wf(),
        ensures
            final(self).wf(),
            exists|now: u64| final(self)@ == old(self)@.with_status(text@, level, now),
    {
        let now = self.clock.now_nanos();
        self.set_status_at(text, level, now);
    }

    /// Drops the status message once it has expired, at time `now`.
    pub fn tick_at(&mut self, now: u64)
        requires
            old(self).wf(),
        ensures
            final(self).wf(),
            final(self)@ == old(self)@.after_tick(now),
    {
        let expired = match &self.status_message {
            Some(m) => now > m.expires,
            None => false,
        };
        if expired {
            self.status_message = None;
        }
    }

    /// Drops the status message once it has expired.
    pub fn tick(&mut self)
        requires
            old(self).wf(),
        ensures
            final(self).wf(),
            exists|now: u64| final(self)@ == old(self)@.after_tick(now),
    {
        let now = self.clock.now_nanos();
        self.tick_at(now);
    }

    /// Appends a character to the input line.
    pub fn handle_input_char(&mut self, ch: char)
        requires
            old(self).wf(),
        ensures
            final(self).wf(),
            final(self)@ == (AppView { input: old(self)@.input.push(ch), ..old(self)@ }),
    {
        string_push(&mut self.input_buffer, ch);
    }

    /// Removes the last character of the input line, if any.
    pub fn handle_input_backspace(&mut self)
        requires
            old(self).wf(),
        ensures
            final(self).wf(),
            final(self)@ == (AppView {
                input: if old(self)@.input.len() > 0 {
                    old(self)@.input.drop_last()
                } else {
                    old(self)@.input
                },
                ..old(self)@
            }),
    {
        let _ = string_pop(&mut self.input_buffer);
    }

    /// Scrolls so that the cursor is inside a viewport of `viewport_height` rows.
    pub fn ensure_cursor_visible(&mut self, viewport_height: usize)
        requires
            old(self).wf(),
            old(self).scroll_offset + viewport_height <= usize::MAX,
        ensures
            final(self).wf(),
            final(self)@ == old(self)@.after_cursor_made_visible(viewport_height),
    {
        if self.cursor_index < self.scroll_offset {
            self.scroll_offset = self.cursor_index;
        } else if self.cursor_index >= self.scroll_offset + viewport_height {
            self.scroll_offset = self.cursor_index - viewport_height + 1;
        }
    }
}

impl AppView {
    /// Reading the current directory again is asked for; `focus` names the
    /// entry to put the cursor on afterwards.
    pub open spec fn reload_request(self, focus: Option<Seq<char>>) -> (AppView, ActionView) {
        let parent = spec_path_parent(self.current_dir);
        (
            AppView {
                pending: PendingView::AfterReload { had_parent: parent is Some, focus },
                ..self
            },
            ActionView::ReadDirectory { dir: self.current_dir, parent },
        )
    }

    /// Moves to `dir`, dropping the forward history.
    pub open spec fn navigated(self, dir: Seq<char>) -> AppView {
        let h = self.history.take(self.history_index + 1).push(dir);
        AppView {
            current_dir: dir,
            cursor: 0,
            scroll: 0,
            selected: Seq::empty(),
            history: h,
            history_index: (h.len() - 1) as usize,
            ..self
        }
    }

    /// Moves to the directory at `index` in the history.
    pub open spec fn revisited(self, index: usize) -> AppView {
        AppView {
            history_index: index,
            current_dir: self.history[index as int],
            cursor: 0,
            scroll: 0,
            selected: Seq::empty(),
            ..self
        }
    }

    pub open spec fn after_enter_directory(self) -> (AppView, ActionView) {
        match self.current_real_index() {
            Some(i) => if self.entries[i as int].kind == EntryKind::Directory {
                self.navigated(self.entries[i as int].path@).reload_request(None)
            } else {
                (self, ActionView::Done)
            },
            None => (self, ActionView::Done),
        }
    }

    pub open spec fn after_parent_directory(self) -> (AppView, ActionView) {
        match spec_path_parent(self.current_dir) {
            Some(p) => self.navigated(p).reload_request(spec_path_file_name(self.current_dir)),
            None => (self, ActionView::Done),
        }
    }

    pub open spec fn after_go_back(self) -> (AppView, ActionView) {
        if self.history_index > 0 {
            self.revisited((self.history_index - 1) as usize).reload_request(None)
        } else {
            (self, ActionView::Done)
        }
    }

    pub open spec fn after_go_forward(self) -> (AppView, ActionView) {
        let n = self.history.len();
        if self.history_index + 1 < n {
            self.revisited((self.history_index + 1) as usize).reload_request(None)
        } else {
            (self, ActionView::Done)
        }
    }

    pub open spec fn after_paste(self) -> (AppView, ActionView) {
        match self.clipboard {
            Some(c) => match c.operation {
                ClipboardOp::Copy => (
                    AppView { pending: PendingView::AfterCopy, ..self },
                    ActionView::CopyEntries { sources: c.paths, dest: self.current_dir },
                ),
                ClipboardOp::Cut => (
                    AppView { pending: PendingView::AfterMove, ..self },
                    ActionView::MoveEntries { sources: c.paths, dest: self.current_dir },
                ),
            },
            None => (self, ActionView::Done),
        }
    }

    /// Delete: the selection, or else the entry under the cursor; when the
    /// configuration asks for it, a confirmation first.
    pub open spec fn after_delete(self) -> (AppView, ActionView) {
        let paths = self.selected_paths();
        if paths.len() == 0 {
            match self.current_real_index() {
                Some(i) => {
                    let one = seq![self.entries[i as int].path@];
                    if self.config.general.confirm_delete {
                        (AppView { mode: ModeView::ConfirmDelete(one), ..self }, ActionView::Done)
                    } else {
                        (
                            AppView { pending: PendingView::AfterDeleteOne, ..self },
                            ActionView::DeleteEntries { targets: one },
                        )
                    }
                },
                None => (self.after_enter_normal(), ActionView::Done),
            }
        } else if self.config.general.confirm_delete {
            (AppView { mode: ModeView::ConfirmDelete(paths), ..self }, ActionView::Done)
        } else {
            (
                AppView { pending: PendingView::AfterDeleteMany, ..self },
                ActionView::DeleteEntries { targets: paths },
            )
        }
    }

    /// Enter on the input line: the mode decides what the input is for. The
    /// application is back in normal mode with an empty input line, except
    /// while a rename, creation or deletion it asks for is in flight: the mode
    /// and the input stay until that action has succeeded.
    pub open spec fn after_confirm_input(self) -> (AppView, ActionView) {
        let done = AppView { mode: ModeView::Normal, input: Seq::empty(), ..self };
        match self.mode {
            ModeView::Rename(original) => done.after_rename_input(original, self.input),
            ModeView::CreateFile => done.after_create_input(false, self.input),
            ModeView::CreateDir => done.after_create_input(true, self.input),
            ModeView::Search => (
                AppView { search_query: Some(self.input), ..done }.after_search_next(),
                ActionView::Done,
            ),
            ModeView::Filter => {
                let f = if self.input.len() == 0 {
                    None
                } else {
                    Some(self.input)
                };
                (AppView { filter: f, ..done }.refiltered(), ActionView::Done)
            },
            ModeView::ConfirmDelete(paths) => (
                AppView { pending: PendingView::AfterConfirmedDelete, ..self },
                ActionView::DeleteEntries { targets: paths },
            ),
            _ => (done, ActionView::Done),
        }
    }

    /// A rename is asked for when the new name is not empty and differs; the
    /// rename mode and its input are kept while it is in flight.
    pub open spec fn after_rename_input(self, original: Seq<char>, input: Seq<char>) -> (
        AppView,
        ActionView,
    ) {
        if input.len() > 0 && input != original {
            (
                AppView {
                    pending: PendingView::AfterRename(input),
                    mode: ModeView::Rename(original),
                    input,
                    ..self
                },
                ActionView::RenameEntry {
                    from: spec_path_join(self.current_dir, original),
                    to: spec_path_join(self.current_dir, input),
                },
            )
        } else {
            (self, ActionView::Done)
        }
    }

    /// A file or directory is created when the name is not empty; the input
    /// mode and its input are kept while that is in flight.
    pub open spec fn after_create_input(self, dir: bool, input: Seq<char>) -> (AppView, ActionView) {
        if input.len() > 0 {
            let path = spec_path_join(self.current_dir, input);
            if dir {
                (
                    AppView {
                        pending: PendingView::AfterCreateDir(input),
                        mode: ModeView::CreateDir,
                        input,
                        ..self
                    },
                    ActionView::CreateDirectory { path },
                )
            } else {
                (
                    AppView {
                        pending: PendingView::AfterCreateFile(input),
                        mode: ModeView::CreateFile,
                        input,
                        ..self
                    },
                    ActionView::CreateFile { path },
                )
            }
        } else {
            (self, ActionView::Done)
        }
    }
}

fn clone_strings(v: &Vec<String>) -> (r: Vec<String>)
    ensures
        strings_view(r@) == strings_view(v@),
{
    let mut r: Vec<String> = Vec::new();
    let mut k: usize = 0;
    while k < v.len()
        invariant
            k <= v.len(),
            r@.len() == k,
            forall|j: int| 0 <= j < k ==> #[trigger] r@[j]@ == v@[j]@,
        decreases v.len() - k,
    {
        r.push(v[k].clone());
        k = k + 1;
    }
    assert(strings_view(r@) =~= strings_view(v@));
    r
}

impl App {
    fn start_reload(&mut self, focus: Option<String>) -> (r: AppAction)
        requires
            old(self).wf(),
        ensures
            final(self).wf(),
            (final(self)@, r@) == old(self)@.reload_request(opt_string_view(focus)),
    {
        let parent = path_parent(self.current_dir.as_str());
        self.pending = Pending::AfterReload { had_parent: parent.is_some(), focus };
        AppAction::ReadDirectory { dir: self.current_dir.clone(), parent }
    }

    fn navigate_to(&mut self, dir: String)
        requires
            old(self).wf(),
        ensures
            final(self).wf(),
            final(self)@ == old(self)@.navigated(dir@),
    {
        let ghost h = strings_view(self.history@);
        let n = self.history.len();
        self.cursor_index = 0;
        self.scroll_offset = 0;
        self.selected.clear();
        self.history.truncate(self.history_index + 1);
        self.history.push(dir.clone());
        self.history_index = self.history.len() - 1;
        self.current_dir = dir;
        assert(strings_view(self.history@) =~= h.take(old(self).history_index + 1).push(dir@));
    }

    fn revisit(&mut self, index: usize)
        requires
            old(self).wf(),
            index < old(self).history@.len(),
        ensures
            final(self).wf(),
            final(self)@ == old(self)@.revisited(index),
    {
        self.history_index = index;
        self.current_dir = self.history[index].clone();
        self.cursor_index = 0;
        self.scroll_offset = 0;
        self.selected.clear();
    }

    fn enter_directory(&mut self) -> (r: AppAction)
        requires
            old(self).wf(),
        ensures
            final(self).wf(),
            (final(self)@, r@) == old(self)@.after_enter_directory(),
    {
        let target = match self.current_entry() {
            Some(entry) => if entry.kind == EntryKind::Directory {
                Some(entry.path.clone())
            } else {
                None
            },
            None => None,
        };
        match target {
            Some(dir) => {
                self.navigate_to(dir);
                self.start_reload(None)
            },
            None => AppAction::Done,
        }
    }

    fn parent_directory(&mut self) -> (r: AppAction)
        requires
            old(self).wf(),
        ensures
            final(self).wf(),
            (final(self)@, r@) == old(self)@.after_parent_directory(),
    {
        match path_parent(self.current_dir.as_str()) {
            Some(parent) => {
                let old_name = path_file_name(self.current_dir.as_str());
                self.navigate_to(parent);
                self.start_reload(old_name)
            },
            None => AppAction::Done,
        }
    }

    fn go_back(&mut self) -> (r: AppAction)
        requires
            old(self).wf(),
        ensures
            final(self).wf(),
            (final(self)@, r@) == old(self)@.after_go_back(),
    {
        if self.history_index > 0 {
            self.revisit(self.history_index - 1);
            self.start_reload(None)
        } else {
            AppAction::Done
        }
    }

    fn go_forward(&mut self) -> (r: AppAction)
        requires
            old(self).wf(),
        ensures
            final(self).wf(),
            (final(self)@, r@) == old(self)@.after_go_forward(),
    {
        let n = self.history.len();
        if self.history_index + 1 < n {
            self.revisit(self.history_index + 1);
            self.start_reload(None)
        } else {
            AppAction::Done
        }
    }

    fn copy_selected(&mut self, now: u64)
        requires
            old(self).wf(),
        ensures
            final(self).wf(),
            final(self)@ == old(self)@.after_clip(ClipboardOp::Copy, now),
    {
        let paths = self.get_selected_paths();
        if paths.len() > 0 {
            self.clipboard = Some(Clipboard { operation: ClipboardOp::Copy, paths });
            let text = count_text(self.selected.len(), " item(s) copied");
            self.set_status_at(text, StatusLevel::Info, now);
            self.enter_normal_mode();
        }
    }

    fn cut_selected(&mut self, now: u64)
        requires
            old(self).wf(),
        ensures
            final(self).wf(),
            final(self)@ == old(self)@.after_clip(ClipboardOp::Cut, now),
    {
        let paths = self.get_selected_paths();
        if paths.len() > 0 {
            self.clipboard = Some(Clipboard { operation: ClipboardOp::Cut, paths });
            let text = count_text(self.selected.len(), " item(s) cut");
            self.set_status_at(text, StatusLevel::Info, now);
            self.enter_normal_mode();
        }
    }

    fn paste(&mut self) -> (r: AppAction)
        requires
            old(self).wf(),
        ensures
            final(self).wf(),
            (final(self)@, r@) == old(self)@.after_paste(),
    {
        match &self.clipboard {
            Some(c) => {
                let sources = clone_strings(&c.paths);
                let dest = self.current_dir.clone();
                match c.operation {
                    ClipboardOp::Copy => {
                        self.pending = Pending::AfterCopy;
                        AppAction::CopyEntries { sources, dest }
                    },
                    ClipboardOp::Cut => {
                        self.pending = Pending::AfterMove;
                        AppAction::MoveEntries { sources, dest }
                    },
                }
            },
            None => AppAction::Done,
        }
    }

    fn delete_selected(&mut self) -> (r: AppAction)
        requires
            old(self).wf(),
        ensures
            final(self).wf(),
            (final(self)@, r@) == old(self)@.after_delete(),
    {
        let paths = self.get_selected_paths();
        if paths.len() == 0 {
            let one = match self.current_entry() {
                Some(entry) => {
                    let mut v: Vec<String> = Vec::new();
                    v.push(entry.path.clone());
                    Some(v)
                },
                None => None,
            };
            match one {
                Some(targets) => {
                    assert(strings_view(targets@) =~= seq![
                        self@.entries[self@.current_real_index()->0 as int].path@,
                    ]);
                    if self.config.general.confirm_delete {
                        self.mode = AppMode::Confirm(ConfirmAction::Delete(targets));
                        AppAction::Done
                    } else {
                        self.pending = Pending::AfterDeleteOne;
                        AppAction::DeleteEntries { targets }
                    }
                },
                None => {
                    self.enter_normal_mode();
                    AppAction::Done
                },
            }
        } else if self.config.general.confirm_delete {
            self.mode = AppMode::Confirm(ConfirmAction::Delete(paths));
            AppAction::Done
        } else {
            self.pending = Pending::AfterDeleteMany;
            AppAction::DeleteEntries { targets: paths }
        }
    }

    fn start_rename(&mut self)
        requires
            old(self).wf(),
        ensures
            final(self).wf(),
            final(self)@ == old(self)@.after_start_rename(),
    {
        let name = match self.current_entry() {
            Some(entry) => Some(entry.name.clone()),
            None => None,
        };
        if let Some(name) = name {
            self.input_buffer = name.clone();
            self.mode = AppMode::Input(InputContext::Rename { original: name });
        }
    }

    fn set_input_mode(&mut self, mode: AppMode)
        requires
            old(self).wf(),
        ensures
            final(self).wf(),
            final(self)@ == old(self)@.with_mode_and_empty_input(mode@),
    {
        self.input_buffer = String::new();
        self.mode = mode;
    }

    fn rename_input(&mut self, original: String, input: String) -> (r: AppAction)
        requires
            old(self).wf(),
        ensures
            final(self).wf(),
            (final(self)@, r@) == old(self)@.after_rename_input(original@, input@),
    {
        if !input.as_str().is_empty() && !str_eq(input.as_str(), original.as_str()) {
            let from = path_join(self.current_dir.as_str(), original.as_str());
            let to = path_join(self.current_dir.as_str(), input.as_str());
            self.mode = AppMode::Input(InputContext::Rename { original: original.clone() });
            self.input_buffer = input.clone();
            self.pending = Pending::AfterRename { new_name: input };
            AppAction::RenameEntry { from, to }
        } else {
            AppAction::Done
        }
    }

    fn create_input(&mut self, dir: bool, input: String) -> (r: AppAction)
        requires
            old(self).wf(),
        ensures
            final(self).wf(),
            (final(self)@, r@) == old(self)@.after_create_input(dir, input@),
    {
        if !input.as_str().is_empty() {
            let path = path_join(self.current_dir.as_str(), input.as_str());
            self.input_buffer = input.clone();
            if dir {
                self.mode = AppMode::Input(InputContext::CreateDir);
                self.pending = Pending::AfterCreateDir { name: input };
                AppAction::CreateDirectory { path }
            } else {
                self.mode = AppMode::Input(InputContext::CreateFile);
                self.pending = Pending::AfterCreateFile { name: input };
                AppAction::CreateFile { path }
            }
        } else {
            AppAction::Done
        }
    }

    fn confirm_input(&mut self) -> (r: AppAction)
        requires
            old(self).wf(),
        ensures
            final(self).wf(),
            (final(self)@, r@) == old(self)@.after_confirm_input(),
    {
        let mut mode = AppMode::Normal;
        std::mem::swap(&mut mode, &mut self.mode);
        let mut input = String::new();
        std::mem::swap(&mut input, &mut self.input_buffer);
        match mode {
            AppMode::Input(InputContext::Rename { original }) => self.rename_input(original, input),
            AppMode::Input(InputContext::CreateFile) => self.create_input(false, input),
            AppMode::Input(InputContext::CreateDir) => self.create_input(true, input),
            AppMode::Search => {
                self.search_query = Some(input);
                self.search_next();
                AppAction::Done
            },
            AppMode::Filter => {
                self.filter = if input.as_str().is_empty() {
                    None
                } else {
                    Some(input)
                };
                self.rebuild_filtered_indices();
                AppAction::Done
            },
            AppMode::Confirm(ConfirmAction::Delete(targets)) => {
                self.mode = AppMode::Confirm(ConfirmAction::Delete(clone_strings(&targets)));
                self.input_buffer = input;
                self.pending = Pending::AfterConfirmedDelete;
                AppAction::DeleteEntries { targets }
            },
            _ => AppAction::Done,
        }
    }
}

impl AppView {
    /// What a command does: the next state and the action asked for. `now` is
    /// the time on the application's clock; `sorted` is the listing sorted
    /// again, for the commands that change the sort.
    pub open spec fn after_command(self, cmd: AppCommand, now: u64, sorted: Seq<FileEntry>) -> (
        AppView,
        ActionView,
    ) {
        match cmd {
            AppCommand::CursorUp => (self.after_cursor_up(), ActionView::Done),
            AppCommand::CursorDown => (self.after_cursor_down(), ActionView::Done),
            AppCommand::CursorTop => (self.after_cursor_top(), ActionView::Done),
            AppCommand::CursorBottom => (self.after_cursor_bottom(), ActionView::Done),
            AppCommand::PageUp => (self.after_page_up(), ActionView::Done),
            AppCommand::PageDown => (self.after_page_down(), ActionView::Done),
            AppCommand::EnterDirectory => self.after_enter_directory(),
            AppCommand::ParentDirectory => self.after_parent_directory(),
            AppCommand::GoBack => self.after_go_back(),
            AppCommand::GoForward => self.after_go_forward(),
            AppCommand::ToggleSelect => (self.after_toggle_select(), ActionView::Done),
            AppCommand::SelectAll => (self.after_select_all(), ActionView::Done),
            AppCommand::ClearSelection => (self.after_clear_selection(), ActionView::Done),
            AppCommand::VisualMode => (self.after_enter_visual(), ActionView::Done),
            AppCommand::NormalMode => (self.after_enter_normal(), ActionView::Done),
            AppCommand::Copy => (self.after_clip(ClipboardOp::Copy, now), ActionView::Done),
            AppCommand::Cut => (self.after_clip(ClipboardOp::Cut, now), ActionView::Done),
            AppCommand::Paste => self.after_paste(),
            AppCommand::Delete => self.after_delete(),
            AppCommand::Rename => (self.after_start_rename(), ActionView::Done),
            AppCommand::CreateFile => (
                self.with_mode_and_empty_input(ModeView::CreateFile),
                ActionView::Done,
            ),
            AppCommand::CreateDir => (
                self.with_mode_and_empty_input(ModeView::CreateDir),
                ActionView::Done,
            ),
            AppCommand::SortNext => (
                AppView { sort_field: spec_next_field(self.sort_field), ..self }.resorted(sorted),
                ActionView::Done,
            ),
            AppCommand::SortBy(field) => (
                AppView { sort_field: field, ..self }.resorted(sorted),
                ActionView::Done,
            ),
            AppCommand::ToggleSortOrder => (
                AppView { sort_ascending: !self.sort_ascending, ..self }.resorted(sorted),
                ActionView::Done,
            ),
            AppCommand::TogglePreview => (
                AppView { show_preview: !self.show_preview, ..self },
                ActionView::Done,
            ),
            AppCommand::ToggleHidden => (self.after_toggle_hidden(), ActionView::Done),
            AppCommand::Refresh => self.reload_request(None),
            AppCommand::SearchMode => (
                self.with_mode_and_empty_input(ModeView::Search),
                ActionView::Done,
            ),
            AppCommand::FilterMode => (
                self.with_mode_and_empty_input(ModeView::Filter),
                ActionView::Done,
            ),
            AppCommand::SearchNext => (self.after_search_next(), ActionView::Done),
            AppCommand::SearchPrev => (self.after_search_prev(), ActionView::Done),
            AppCommand::ConfirmInput => self.after_confirm_input(),
            AppCommand::CancelInput => (
                self.with_mode_and_empty_input(ModeView::Normal),
                ActionView::Done,
            ),
            AppCommand::Quit => (AppView { should_quit: true, ..self }, ActionView::Done),
            AppCommand::ForceQuit => (AppView { should_quit: true, ..self }, ActionView::Done),
            AppCommand::CommandMode => (
                self.with_mode_and_empty_input(ModeView::Command),
                ActionView::Done,
            ),
            AppCommand::PluginCommand { .. } => (self, ActionView::Done),
        }
    }

    /// Whether a command sorts the listing again.
    pub open spec fn sorts(cmd: AppCommand) -> bool {
        cmd is SortNext || cmd is SortBy || cmd is ToggleSortOrder
    }

    /// The first visible position whose entry is named `name`, from the `k`-th.
    pub open spec fn position_named(self, name: Seq<char>, k: nat) -> Option<usize>
        decreases self.filtered.len() - k,
    {
        if k >= self.filtered.len() {
            None
        } else if self.entries[self.filtered[k as int] as int].name@ == name {
            Some(k as usize)
        } else {
            self.position_named(name, k + 1)
        }
    }

    /// A directory listing arrives: `sorted` is its entries sorted, and
    /// `sorted_parent` those of the parent, when that was asked for and read.
    /// A parent that could not be read leaves the parent pane as it was.
    pub open spec fn listed(
        self,
        sorted: Seq<FileEntry>,
        had_parent: bool,
        parent_read: bool,
        sorted_parent: Seq<FileEntry>,
        focus: Option<Seq<char>>,
    ) -> AppView {
        let w = AppView { entries: sorted, ..self }.refiltered();
        let w2 = if had_parent {
            if parent_read {
                AppView { parent_entries: sorted_parent, ..w }
            } else {
                w
            }
        } else {
            AppView { parent_entries: Seq::empty(), ..w }
        };
        match focus {
            Some(name) => match w2.position_named(name, 0) {
                Some(p) => AppView { cursor: p, ..w2 },
                None => w2,
            },
            None => w2,
        }
    }

    /// What an outcome of the action in flight does.
    pub open spec fn after_outcome(
        self,
        outcome: OutcomeView,
        now: u64,
        sorted: Seq<FileEntry>,
        sorted_parent: Seq<FileEntry>,
    ) -> (AppView, ActionView) {
        let idle = AppView { pending: PendingView::Idle, ..self };
        match (self.pending, outcome) {
            (PendingView::AfterCopy, OutcomeView::Count(n)) => idle.with_status(
                decimal(n as nat) + " item(s) pasted"@,
                StatusLevel::Info,
                now,
            ).reload_request(None),
            (PendingView::AfterMove, OutcomeView::Count(n)) => AppView {
                clipboard: None,
                ..idle
            }.with_status(decimal(n as nat) + " item(s) moved"@, StatusLevel::Info, now).reload_request(None),
            (PendingView::AfterDeleteOne, OutcomeView::Count(_)) => idle.with_status(
                "1 item deleted"@,
                StatusLevel::Info,
                now,
            ).after_enter_normal().reload_request(None),
            (PendingView::AfterDeleteMany, OutcomeView::Count(n)) => AppView {
                selected: Seq::empty(),
                ..idle
            }.with_status(
                decimal(n as nat) + " item(s) deleted"@,
                StatusLevel::Info,
                now,
            ).after_enter_normal().reload_request(None),
            (PendingView::AfterConfirmedDelete, OutcomeView::Count(n)) => AppView {
                selected: Seq::empty(),
                mode: ModeView::Normal,
                input: Seq::empty(),
                ..idle
            }.with_status(decimal(n as nat) + " item(s) deleted"@, StatusLevel::Info, now).reload_request(None),
            (PendingView::AfterRename(name), OutcomeView::Done) => AppView {
                mode: ModeView::Normal,
                input: Seq::empty(),
                ..idle
            }.with_status(
                "Renamed to "@ + name,
                StatusLevel::Info,
                now,
            ).reload_request(None),
            (PendingView::AfterCreateFile(name), OutcomeView::Done) => AppView {
                mode: ModeView::Normal,
                input: Seq::empty(),
                ..idle
            }.with_status(
                "Created "@ + name,
                StatusLevel::Info,
                now,
            ).reload_request(None),
            (PendingView::AfterCreateDir(name), OutcomeView::Done) => AppView {
                mode: ModeView::Normal,
                input: Seq::empty(),
                ..idle
            }.with_status(
                "Created directory "@ + name,
                StatusLevel::Info,
                now,
            ).reload_request(None),
            (
                PendingView::AfterReload { had_parent, focus },
                OutcomeView::Listing { entries, parent },
            ) => (
                idle.listed(sorted, had_parent, parent is Some, sorted_parent, focus),
                ActionView::Done,
            ),
            _ => (idle, ActionView::Done),
        }
    }

    /// The sorting an outcome asks for: the listing by the current settings,
    /// the parent's by name with directories first.
    pub open spec fn outcome_sorted(
        self,
        outcome: OutcomeView,
        sorted: Seq<FileEntry>,
        sorted_parent: Seq<FileEntry>,
    ) -> bool {
        match (self.pending, outcome) {
            (
                PendingView::AfterReload { had_parent, focus },
                OutcomeView::Listing { entries, parent },
            ) => {
                &&& is_stable_sort_of(sorted, entries, self.sort_order())
                &&& (had_parent && parent is Some ==> is_stable_sort_of(
                    sorted_parent,
                    parent->0,
                    entry_order(SortField::Name, true, true),
                ))
            },
            _ => true,
        }
    }
}

/// The state of a new application in `current_dir` with `config`: nothing
/// listed yet, the default keymap with the user's bindings merged in.
pub open spec fn spec_new_app(config: Config, current_dir: Seq<char>, keymap: KeymapView) -> AppView {
    AppView {
        current_dir,
        parent_entries: Seq::empty(),
        entries: Seq::empty(),
        filtered: Seq::empty(),
        cursor: 0,
        scroll: 0,
        selected: Seq::empty(),
        visual_anchor: None,
        clipboard: None,
        show_hidden: config.general.show_hidden,
        sort_field: spec_sort_field(config.sort.field@),
        sort_ascending: config.sort.ascending,
        filter: None,
        search_query: None,
        mode: ModeView::Normal,
        input: Seq::empty(),
        show_preview: config.preview.enabled,
        pane_ratios: config.ui.pane_ratios,
        status: None,
        history: seq![current_dir],
        history_index: 0,
        keymap,
        config,
        should_quit: false,
        pending: PendingView::Idle,
    }
}

impl App {
    /// A new application in `current_dir`. Nothing is listed yet: the driver
    /// performs [`App::reload_directory`] first.
    pub fn new(config: Config, current_dir: String) -> (r: App)
        ensures
            r.wf(),
            r@ == spec_new_app(config, current_dir@, r@.keymap),
            r@.keymap.bindings == spec_merge(default_bindings(), spec_user_bindings(config.keys)),
            r@.keymap.sequences == Map::<Seq<KeyCombo>, Seq<char>>::empty().insert(
                seq![key_g(), key_g()],
                "cursor_top"@,
            ),
            r@.keymap.buffer == Seq::<KeyCombo>::empty(),
            r@.keymap.last_key_time is None,
            r@.keymap.timeout == 500_000_000,
    {
        let mut keymap = default_keymap();
        let user_bindings = config.user_key_bindings();
        keymap.merge_user_config(user_bindings);
        let show_hidden = config.general.show_hidden;
        let sort_field = config.sort.sort_field();
        let sort_ascending = config.sort.ascending;
        let pane_ratios = config.ui.pane_ratios;
        let show_preview = config.preview.enabled;
        let mut history: Vec<String> = Vec::new();
        history.push(current_dir.clone());
        let app = App {
            current_dir,
            parent_entries: Vec::new(),
            entries: Vec::new(),
            filtered_indices: Vec::new(),
            cursor_index: 0,
            scroll_offset: 0,
            selected: Vec::new(),
            visual_anchor: None,
            clipboard: None,
            show_hidden,
            sort_field,
            sort_ascending,
            filter: None,
            search_query: None,
            mode: AppMode::Normal,
            input_buffer: String::new(),
            show_preview,
            pane_ratios,
            status_message: None,
            history,
            history_index: 0,
            keymap,
            config,
            should_quit: false,
            pending: Pending::Idle,
            clock: Clock::new(),
        };
        assert(app@.history =~= seq![app@.current_dir]);
        app
    }

    /// Asks for the current directory to be read again.
    pub fn reload_directory(&mut self) -> (r: AppAction)
        requires
            old(self).wf(),
        ensures
            final(self).wf(),
            (final(self)@, r@) == old(self)@.reload_request(None),
    {
        self.start_reload(None)
    }

    /// Forgets the action in flight, as when it failed and the failure is
    /// ignored.
    pub fn cancel_pending(&mut self)
        requires
            old(self).wf(),
        ensures
            final(self).wf(),
            final(self)@ == (AppView { pending: PendingView::Idle, ..old(self)@ }),
    {
        self.pending = Pending::Idle;
    }

    fn sort_by_settings(&mut self)
        requires
            old(self).wf(),
        ensures
            final(self).wf(),
            is_stable_sort_of(final(self)@.entries, old(self)@.entries, old(self)@.sort_order()),
            final(self)@ == old(self)@.resorted(final(self)@.entries),
    {
        self.resort();
    }

    /// Carries out a command at time `now` on the application's clock.
    #[verifier::rlimit(60)]
    pub fn execute_command_at(&mut self, cmd: AppCommand, now: u64) -> (r: AppAction)
        requires
            old(self).wf(),
        ensures
            final(self).wf(),
            (final(self)@, r@) == old(self)@.after_command(cmd, now, final(self)@.entries),
            AppView::sorts(cmd) ==> is_stable_sort_of(
                final(self)@.entries,
                old(self)@.entries,
                final(self)@.sort_order(),
            ),
    {
        match cmd {
            AppCommand::CursorUp => {
                self.cursor_up();
                AppAction::Done
            },
            AppCommand::CursorDown => {
                self.cursor_down();
                AppAction::Done
            },
            AppCommand::CursorTop => {
                self.cursor_top();
                AppAction::Done
            },
            AppCommand::CursorBottom => {
                self.cursor_bottom();
                AppAction::Done
            },
            AppCommand::PageUp => {
                self.page_up();
                AppAction::Done
            },
            AppCommand::PageDown => {
                self.page_down();
                AppAction::Done
            },
            AppCommand::EnterDirectory => self.enter_directory(),
            AppCommand::ParentDirectory => self.parent_directory(),
            AppCommand::GoBack => self.go_back(),
            AppCommand::GoForward => self.go_forward(),
            AppCommand::ToggleSelect => {
                self.toggle_select();
                AppAction::Done
            },
            AppCommand::SelectAll => {
                self.select_all();
                AppAction::Done
            },
            AppCommand::ClearSelection => {
                self.clear_selection();
                AppAction::Done
            },
            AppCommand::VisualMode => {
                self.enter_visual_mode();
                AppAction::Done
            },
            AppCommand::NormalMode => {
                self.enter_normal_mode();
                AppAction::Done
            },
            AppCommand::Copy => {
                self.copy_selected(now);
                AppAction::Done
            },
            AppCommand::Cut => {
                self.cut_selected(now);
                AppAction::Done
            },
            AppCommand::Paste => self.paste(),
            AppCommand::Delete => self.delete_selected(),
            AppCommand::Rename => {
                self.start_rename();
                AppAction::Done
            },
            AppCommand::CreateFile => {
                self.set_input_mode(AppMode::Input(InputContext::CreateFile));
                AppAction::Done
            },
            AppCommand::CreateDir => {
                self.set_input_mode(AppMode::Input(InputContext::CreateDir));
                AppAction::Done
            },
            AppCommand::SortNext => {
                self.sort_field = self.sort_field.next();
                self.sort_by_settings();
                AppAction::Done
            },
            AppCommand::SortBy(field) => {
                self.sort_field = field;
                self.sort_by_settings();
                AppAction::Done
            },
            AppCommand::ToggleSortOrder => {
                self.sort_ascending = !self.sort_ascending;
                self.sort_by_settings();
                AppAction::Done
            },
            AppCommand::TogglePreview => {
                self.show_preview = !self.show_preview;
                AppAction::Done
            },
            AppCommand::ToggleHidden => {
                self.toggle_hidden();
                AppAction::Done
            },
            AppCommand::Refresh => self.start_reload(None),
            AppCommand::SearchMode => {
                self.set_input_mode(AppMode::Search);
                AppAction::Done
            },
            AppCommand::FilterMode => {
                self.set_input_mode(AppMode::Filter);
                AppAction::Done
            },
            AppCommand::SearchNext => {
                self.search_next();
                AppAction::Done
            },
            AppCommand::SearchPrev => {
                self.search_prev();
                AppAction::Done
            },
            AppCommand::ConfirmInput => self.confirm_input(),
            AppCommand::CancelInput => {
                self.set_input_mode(AppMode::Normal);
                AppAction::Done
            },
            AppCommand::Quit => {
                self.should_quit = true;
                AppAction::Done
            },
            AppCommand::ForceQuit => {
                self.should_quit = true;
                AppAction::Done
            },
            AppCommand::CommandMode => {
                self.set_input_mode(AppMode::Command);
                AppAction::Done
            },
            AppCommand::PluginCommand { .. } => AppAction::Done,
        }
    }

    /// Carries out a command now. What it does depends on the time only through
    /// the expiry of a status message it sets.
    pub fn execute_command(&mut self, cmd: AppCommand) -> (r: AppAction)
        requires
            old(self).wf(),
        ensures
            final(self).wf(),
            exists|now: u64|
                (final(self)@, r@) == old(self)@.after_command(cmd, now, final(self)@.entries),
            AppView::sorts(cmd) ==> is_stable_sort_of(
                final(self)@.entries,
                old(self)@.entries,
                final(self)@.sort_order(),
            ),
    {
        let now = self.clock.now_nanos();
        self.execute_command_at(cmd, now)
    }
}

impl App {
    fn position_named(&self, name: &str) -> (r: Option<usize>)
        requires
            self.wf(),
        ensures
            r == self@.position_named(name@, 0),
            r matches Some(p) ==> p < self.filtered_indices@.len(),
    {
        let mut k: usize = 0;
        while k < self.filtered_indices.len()
            invariant
                self.wf(),
                k <= self.filtered_indices.len(),
                self@.position_named(name@, 0) == self@.position_named(name@, k as nat),
            decreases self.filtered_indices.len() - k,
        {
            let i = self.filtered_indices[k];
            if str_eq(self.entries[i].name.as_str(), name) {
                return Some(k);
            }
            k = k + 1;
        }
        None
    }

    fn apply_listing(
        &mut self,
        entries: Vec<FileEntry>,
        parent: Option<Vec<FileEntry>>,
        had_parent: bool,
        focus: Option<String>,
    )
        requires
            old(self).wf(),
            entries@.len() <= isize::MAX,
        ensures
            final(self).wf(),
            is_stable_sort_of(final(self)@.entries, entries@, old(self)@.sort_order()),
            had_parent && parent is Some ==> is_stable_sort_of(
                final(self)@.parent_entries,
                parent->0@,
                entry_order(SortField::Name, true, true),
            ),
            final(self)@ == old(self)@.listed(
                final(self)@.entries,
                had_parent,
                parent is Some,
                final(self)@.parent_entries,
                opt_string_view(focus),
            ),
    {
        let mut entries = entries;
        sort_entries(
            &mut entries,
            self.sort_field,
            self.sort_ascending,
            self.config.sort.dirs_first,
        );
        self.entries = entries;
        self.rebuild_filtered_indices();
        if had_parent {
            if let Some(p) = parent {
                let mut p = p;
                sort_entries(&mut p, SortField::Name, true, true);
                self.parent_entries = p;
            }
        } else {
            self.parent_entries = Vec::new();
        }
        if let Some(name) = focus {
            if let Some(pos) = self.position_named(name.as_str()) {
                self.cursor_index = pos;
            }
        }
    }

    /// Feeds back the outcome of the action in flight, at time `now` on the
    /// application's clock; answers the next action to perform.
    #[verifier::rlimit(80)]
    pub fn resume_at(&mut self, outcome: IoOutcome, now: u64) -> (r: AppAction)
        requires
            old(self).wf(),
            outcome@ matches OutcomeView::Listing { entries, .. } ==> entries.len() <= isize::MAX,
        ensures
            final(self).wf(),
            old(self)@.outcome_sorted(outcome@, final(self)@.entries, final(self)@.parent_entries),
            (final(self)@, r@) == old(self)@.after_outcome(
                outcome@,
                now,
                final(self)@.entries,
                final(self)@.parent_entries,
            ),
    {
        let mut pending = Pending::Idle;
        std::mem::swap(&mut pending, &mut self.pending);
        match pending {
            Pending::AfterCopy => match outcome {
                IoOutcome::Count(n) => {
                    self.set_status_at(count_text(n, " item(s) pasted"), StatusLevel::Info, now);
                    self.start_reload(None)
                },
                _ => AppAction::Done,
            },
            Pending::AfterMove => match outcome {
                IoOutcome::Count(n) => {
                    self.clipboard = None;
                    self.set_status_at(count_text(n, " item(s) moved"), StatusLevel::Info, now);
                    self.start_reload(None)
                },
                _ => AppAction::Done,
            },
            Pending::AfterDeleteOne => match outcome {
                IoOutcome::Count(_) => {
                    self.set_status_at("1 item deleted".to_owned(), StatusLevel::Info, now);
                    self.enter_normal_mode();
                    self.start_reload(None)
                },
                _ => AppAction::Done,
            },
            Pending::AfterDeleteMany => match outcome {
                IoOutcome::Count(n) => {
                    self.selected.clear();
                    self.set_status_at(count_text(n, " item(s) deleted"), StatusLevel::Info, now);
                    self.enter_normal_mode();
                    self.start_reload(None)
                },
                _ => AppAction::Done,
            },
            Pending::AfterConfirmedDelete => match outcome {
                IoOutcome::Count(n) => {
                    self.selected.clear();
                    self.mode = AppMode::Normal;
                    self.input_buffer = String::new();
                    self.set_status_at(count_text(n, " item(s) deleted"), StatusLevel::Info, now);
                    self.start_reload(None)
                },
                _ => AppAction::Done,
            },
            Pending::AfterRename { new_name } => match outcome {
                IoOutcome::Done => {
                    self.mode = AppMode::Normal;
                    self.input_buffer = String::new();
                    self.set_status_at(
                        joined("Renamed to ", new_name.as_str()),
                        StatusLevel::Info,
                        now,
                    );
                    self.start_reload(None)
                },
                _ => AppAction::Done,
            },
            Pending::AfterCreateFile { name } => match outcome {
                IoOutcome::Done => {
                    self.mode = AppMode::Normal;
                    self.input_buffer = String::new();
                    self.set_status_at(
                        joined("Created ", name.as_str()),
                        StatusLevel::Info,
                        now,
                    );
                    self.start_reload(None)
                },
                _ => AppAction::Done,
            },
            Pending::AfterCreateDir { name } => match outcome {
                IoOutcome::Done => {
                    self.mode = AppMode::Normal;
                    self.input_buffer = String::new();
                    self.set_status_at(
                        joined("Created directory ", name.as_str()),
                        StatusLevel::Info,
                        now,
                    );
                    self.start_reload(None)
                },
                _ => AppAction::Done,
            },
            Pending::AfterReload { had_parent, focus } => match outcome {
                IoOutcome::Listing { entries, parent } => {
                    self.apply_listing(entries, parent, had_parent, focus);
                    AppAction::Done
                },
                _ => AppAction::Done,
            },
            Pending::Idle => AppAction::Done,
        }
    }

    /// Feeds back the outcome of the action in flight now.
    pub fn resume(&mut self, outcome: IoOutcome) -> (r: AppAction)
        requires
            old(self).wf(),
            outcome@ matches OutcomeView::Listing { entries, .. } ==> entries.len() <= isize::MAX,
        ensures
            final(self).wf(),
            old(self)@.outcome_sorted(outcome@, final(self)@.entries, final(self)@.parent_entries),
            exists|now: u64|
                (final(self)@, r@) == old(self)@.after_outcome(
                    outcome@,
                    now,
                    final(self)@.entries,
                    final(self)@.parent_entries,
                ),
    {
        let now = self.clock.now_nanos();
        self.resume_at(outcome, now)
    }
}

// ---------------------------------------------------------------------------
// Laws
// ---------------------------------------------------------------------------

/// Outside visual mode, moving the cursor down and then up again returns to
/// the same state, when the cursor was not on the last entry.
pub proof fn law_cursor_down_up(v: AppView)
    requires
        v.wf(),
        !(v.mode is Visual),
        v.cursor + 1 < v.filtered.len(),
    ensures
        v.after_cursor_down().after_cursor_up() == v,
{
}

proof fn lemma_filtered_members(entries: Seq<FileEntry>, show_hidden: bool, filter: Option<Seq<char>>)
    requires
        entries.len() <= isize::MAX,
    ensures
        forall|j: int|
            0 <= j < entries.len() ==> (spec_filtered(entries, show_hidden, filter).contains(
                j as usize,
            ) <==> entry_visible(#[trigger] entries[j], show_hidden, filter)),
        forall|i: int|
            0 <= i < spec_filtered(entries, show_hidden, filter).len() ==> #[trigger] spec_filtered(
                entries,
                show_hidden,
                filter,
            )[i] < entries.len(),
    decreases entries.len(),
{
    if entries.len() > 0 {
        let prev = entries.drop_last();
        lemma_filtered_members(prev, show_hidden, filter);
        let f = spec_filtered(entries, show_hidden, filter);
        let pf = spec_filtered(prev, show_hidden, filter);
        assert forall|j: int| 0 <= j < entries.len() implies (f.contains(j as usize)
            <==> entry_visible(#[trigger] entries[j], show_hidden, filter)) by {
            if j < entries.len() - 1 {
                assert(prev[j] == entries[j]);
                if f.contains(j as usize) {
                    let k = choose|k: int| 0 <= k < f.len() && f[k] == j as usize;
                    if k < pf.len() {
                        assert(pf[k] == j as usize);
                    }
                }
                if pf.contains(j as usize) {
                    let k = choose|k: int| 0 <= k < pf.len() && pf[k] == j as usize;
                    assert(f[k] == j as usize);
                }
            } else {
                if entry_visible(entries.last(), show_hidden, filter) {
                    assert(f[pf.len() as int] == j as usize);
                } else {
                    if f.contains(j as usize) {
                        let k = choose|k: int| 0 <= k < f.len() && f[k] == j as usize;
                        assert(pf[k] < prev.len());
                    }
                }
            }
        }
    }
}

/// The filter shows exactly the entries it matches: a position of the listing
/// is visible if and only if its entry is shown (not hidden, or hidden files
/// are shown) and its name contains the filter, ignoring case.
pub proof fn law_filter_exact(v: AppView)
    requires
        v.base_wf(),
    ensures
        forall|j: int|
            0 <= j < v.entries.len() ==> (v.refiltered().filtered.contains(j as usize)
                <==> entry_visible(#[trigger] v.entries[j], v.show_hidden, v.filter)),
{
    lemma_filtered_members(v.entries, v.show_hidden, v.filter);
}

proof fn lemma_next_hit(v: AppView, q: Seq<char>, k: nat, j: nat)
    requires
        k <= j < v.filtered.len(),
        v.filtered.len() <= isize::MAX,
        v.search_hit(q, (v.cursor + 1 + j) % (v.filtered.len() as int)),
    ensures
        v.next_hit(q, k) is Some,
    decreases j - k,
{
    if k < j {
        let idx = ((v.cursor + 1 + k) % (v.filtered.len() as int)) as usize;
        if !v.search_hit(q, idx as int) {
            lemma_next_hit(v, q, k + 1, j);
        }
    }
}

proof fn lemma_next_hit_is_hit(v: AppView, q: Seq<char>, k: nat)
    requires
        v.next_hit(q, k) is Some,
        v.filtered.len() <= isize::MAX,
    ensures
        v.next_hit(q, k)->0 < v.filtered.len(),
        v.search_hit(q, v.next_hit(q, k)->0 as int),
    decreases v.filtered.len() - k,
{
    if k < v.filtered.len() {
        let idx = ((v.cursor + 1 + k) % (v.filtered.len() as int)) as usize;
        if !v.search_hit(q, idx as int) {
            lemma_next_hit_is_hit(v, q, k + 1);
        }
    }
}

/// Searching forward lands on a visible entry that matches the query, and
/// finds one whenever one exists.
pub proof fn law_search_next_finds(v: AppView, q: Seq<char>)
    requires
        v.wf(),
        v.search_query == Some(q),
    ensures
        (exists|i: int| 0 <= i < v.filtered.len() && v.search_hit(q, i)) ==> {
            &&& v.after_search_next().cursor < v.filtered.len()
            &&& v.search_hit(q, v.after_search_next().cursor as int)
        },
{
    if exists|i: int| 0 <= i < v.filtered.len() && v.search_hit(q, i) {
        let i = choose|i: int| 0 <= i < v.filtered.len() && v.search_hit(q, i);
        let len = v.filtered.len() as int;
        let c = v.cursor as int;
        let j = (i - c - 1 + 2 * len) % len;
        assert(0 <= j < len);
        assert((c + 1 + j) % len == i) by (nonlinear_arith)
            requires
                0 <= c < len,
                0 <= i < len,
                j == (i - c - 1 + 2 * len) % len,
        {
            assert(i - c - 1 + 2 * len >= 0);
        }
        lemma_next_hit(v, q, 0, j as nat);
        lemma_next_hit_is_hit(v, q, 0);
    }
}

impl AppView {
    /// The visible position `d` steps below the cursor, wrapping around.
    pub open spec fn position_below(self, d: int) -> int {
        (self.cursor + d) % (self.filtered.len() as int)
    }

    /// The visible position `d` steps above the cursor, wrapping around.
    pub open spec fn position_above(self, d: int) -> int {
        (self.cursor + self.filtered.len() - d) % (self.filtered.len() as int)
    }
}

proof fn lemma_next_hit_nearest(v: AppView, q: Seq<char>, k: nat, d: int)
    requires
        k + 1 <= d <= v.filtered.len(),
        v.filtered.len() <= isize::MAX,
        v.search_hit(q, v.position_below(d)),
        forall|e: int| k + 1 <= e < d ==> !v.search_hit(q, #[trigger] v.position_below(e)),
    ensures
        v.next_hit(q, k) == Some(v.position_below(d) as usize),
    decreases d - k,
{
    let len = v.filtered.len() as int;
    assert(v.position_below((k + 1) as int) == (v.cursor + 1 + k) % len);
    assert(0 <= v.position_below(d) < len);
    assert(0 <= v.position_below((k + 1) as int) < len);
    if k + 1 < d {
        assert(!v.search_hit(q, v.position_below((k + 1) as int)));
        lemma_next_hit_nearest(v, q, k + 1, d);
    }
}

proof fn lemma_prev_hit_nearest(v: AppView, q: Seq<char>, k: nat, d: int)
    requires
        1 <= k <= d <= v.filtered.len(),
        v.filtered.len() <= isize::MAX,
        v.search_hit(q, v.position_above(d)),
        forall|e: int| k <= e < d ==> !v.search_hit(q, #[trigger] v.position_above(e)),
    ensures
        v.prev_hit(q, k) == Some(v.position_above(d) as usize),
    decreases d - k,
{
    let len = v.filtered.len() as int;
    assert(0 <= v.position_above(d) < len);
    assert(0 <= v.position_above(k as int) < len);
    if k < d {
        assert(!v.search_hit(q, v.position_above(k as int)));
        lemma_prev_hit_nearest(v, q, k + 1, d);
    }
}

/// Searching forward puts the cursor on the nearest match below it, wrapping
/// around past the last entry to the top: when the first match is `d` steps
/// down, the cursor moves exactly there.
pub proof fn law_search_next_nearest(v: AppView, q: Seq<char>, d: int)
    requires
        v.wf(),
        v.search_query == Some(q),
        1 <= d <= v.filtered.len(),
        v.search_hit(q, v.position_below(d)),
        forall|e: int| 1 <= e < d ==> !v.search_hit(q, #[trigger] v.position_below(e)),
    ensures
        v.after_search_next().cursor == v.position_below(d),
        v.after_search_next() == (AppView { cursor: v.after_search_next().cursor, ..v }),
{
    lemma_next_hit_nearest(v, q, 0, d);
}

/// Searching backward puts the cursor on the nearest match above it, wrapping
/// around past the first entry to the bottom: when the first match is `d`
/// steps up, the cursor moves exactly there.
pub proof fn law_search_prev_nearest(v: AppView, q: Seq<char>, d: int)
    requires
        v.wf(),
        v.search_query == Some(q),
        1 <= d <= v.filtered.len(),
        v.search_hit(q, v.position_above(d)),
        forall|e: int| 1 <= e < d ==> !v.search_hit(q, #[trigger] v.position_above(e)),
    ensures
        v.after_search_prev().cursor == v.position_above(d),
        v.after_search_prev() == (AppView { cursor: v.after_search_prev().cursor, ..v }),
{
    lemma_prev_hit_nearest(v, q, 1, d);
}

/// When the entry just above the cursor matches, searching backward moves the
/// cursor up by one; when the entry just below matches, searching forward
/// moves it down by one.
pub proof fn law_search_adjacent(v: AppView, q: Seq<char>)
    requires
        v.wf(),
        v.search_query == Some(q),
        v.cursor < v.filtered.len(),
    ensures
        v.cursor >= 1 && v.search_hit(q, v.cursor - 1) ==> v.after_search_prev().cursor == v.cursor - 1,
        v.cursor + 1 < v.filtered.len() && v.search_hit(q, v.cursor + 1)
            ==> v.after_search_next().cursor == v.cursor + 1,
{
    let len = v.filtered.len() as int;
    if v.cursor >= 1 && v.search_hit(q, v.cursor - 1) {
        assert(v.position_above(1) == v.cursor - 1) by {
            vstd::arithmetic::div_mod::lemma_mod_add_multiples_vanish((v.cursor - 1) as int, len);
            vstd::arithmetic::div_mod::lemma_small_mod((v.cursor - 1) as nat, len as nat);
        }
        law_search_prev_nearest(v, q, 1);
    }
    if v.cursor + 1 < len && v.search_hit(q, v.cursor + 1) {
        assert(v.position_below(1) == v.cursor + 1) by {
            vstd::arithmetic::div_mod::lemma_small_mod((v.cursor + 1) as nat, len as nat);
        }
        law_search_next_nearest(v, q, 1);
    }
}

/// A page moves the cursor by twenty entries: down, stopping at the last
/// visible entry; up, stopping at the top. Nothing else changes, and a page
/// down that did not stop early is undone by a page up.
pub proof fn law_page_moves(v: AppView)
    requires
        v.wf(),
    ensures
        v.cursor + 20 < v.filtered.len() ==> v.after_page_down().cursor == v.cursor + 20,
        v.cursor + 20 >= v.filtered.len() && v.filtered.len() > 0 ==> v.after_page_down().cursor
            == v.filtered.len() - 1,
        v.filtered.len() == 0 ==> v.after_page_down().cursor == 0,
        v.after_page_down() == (AppView { cursor: v.after_page_down().cursor, ..v }),
        v.cursor >= 20 ==> v.after_page_up().cursor == v.cursor - 20,
        v.cursor < 20 ==> v.after_page_up().cursor == 0,
        v.after_page_up() == (AppView { cursor: v.after_page_up().cursor, ..v }),
        v.cursor + 20 < v.filtered.len() ==> v.after_page_down().after_page_up() == v,
{
}

/// The cursor goes to the first visible entry on top, and to the last one on
/// bottom; one step down or up moves it by exactly one entry when there is one.
pub proof fn law_cursor_moves(v: AppView)
    requires
        v.wf(),
    ensures
        v.after_cursor_top().cursor == 0,
        v.filtered.len() > 0 ==> v.after_cursor_bottom().cursor == v.filtered.len() - 1,
        v.cursor + 1 < v.filtered.len() ==> v.after_cursor_down().cursor == v.cursor + 1,
        v.cursor >= 1 ==> v.after_cursor_up().cursor == v.cursor - 1,
        v.cursor + 1 >= v.filtered.len() ==> v.after_cursor_down() == v,
        v.cursor == 0 ==> v.after_cursor_up() == v,
{
}

/// Keeping the cursor visible in a viewport of `height` rows scrolls as little
/// as possible: afterwards the cursor is inside the viewport; a cursor already
/// inside leaves the scroll alone; one above it becomes the top row, one below
/// it the bottom row; nothing but the scroll changes.
pub proof fn law_cursor_made_visible(v: AppView, height: usize)
    requires
        height >= 1,
    ensures
        v.after_cursor_made_visible(height).scroll <= v.cursor < v.after_cursor_made_visible(height).scroll
            + height,
        v.scroll <= v.cursor < v.scroll + height ==> v.after_cursor_made_visible(height) == v,
        v.cursor < v.scroll ==> v.after_cursor_made_visible(height).scroll == v.cursor,
        v.cursor >= v.scroll + height ==> v.after_cursor_made_visible(height).scroll + height == v.cursor
            + 1,
        v.after_cursor_made_visible(height) == (AppView {
            scroll: v.after_cursor_made_visible(height).scroll,
            ..v
        }),
{
}

/// What the listing shows and what a search finds: hidden entries only when
/// hidden files are shown; with a filter, only names that contain it as a run
/// of characters, ignoring case; a search matches a visible entry whose name
/// contains the query the same way.
pub proof fn law_visibility_and_matching(v: AppView, e: FileEntry, f: Seq<char>, q: Seq<char>, i: int)
    ensures
        e.is_hidden && !v.show_hidden ==> !entry_visible(e, v.show_hidden, Some(f)) && !entry_visible(
            e,
            v.show_hidden,
            None,
        ),
        entry_visible(e, v.show_hidden, None) == (v.show_hidden || !e.is_hidden),
        entry_visible(e, v.show_hidden, Some(f)) == ((v.show_hidden || !e.is_hidden) && exists|k: int|
            0 <= k && k + spec_lowercase(f).len() <= spec_lowercase(e.name@).len() && #[trigger] spec_lowercase(
                e.name@,
            ).subrange(k, k + spec_lowercase(f).len()) == spec_lowercase(f)),
        v.search_hit(q, i) == exists|k: int|
            0 <= k && k + spec_lowercase(q).len() <= spec_lowercase(
                v.entries[v.filtered[i] as int].name@,
            ).len() && #[trigger] spec_lowercase(v.entries[v.filtered[i] as int].name@).subrange(
                k,
                k + spec_lowercase(q).len(),
            ) == spec_lowercase(q),
{
}

/// Going back and then forward in the history returns to the same directory
/// and history position.
pub proof fn law_back_then_forward(v: AppView)
    requires
        v.wf(),
        v.history_index > 0,
    ensures
        v.after_go_back().0.after_go_forward().0.current_dir == v.current_dir,
        v.after_go_back().0.after_go_forward().0.history_index == v.history_index,
{
}

/// Entering a directory and going back returns to the directory left.
pub proof fn law_enter_then_back(v: AppView)
    requires
        v.wf(),
        v.current_real_index() matches Some(i) && v.entries[i as int].kind == EntryKind::Directory,
    ensures
        v.after_enter_directory().0.after_go_back().0.current_dir == v.current_dir,
{
    let i = v.current_real_index()->0;
    let d = v.entries[i as int].path@;
    let w = v.navigated(d);
    let h = v.history.take(v.history_index + 1).push(d);
    assert(w.history == h);
    assert(h.len() == v.history_index + 2);
    assert(w.history_index == v.history_index + 1);
    assert(h[v.history_index as int] == v.history[v.history_index as int]);
    let x = v.after_enter_directory().0;
    assert(x.history == w.history && x.history_index == w.history_index);
    assert(x.after_go_back().0.current_dir == h[v.history_index as int]);
}

/// Copying and then pasting asks to copy exactly the selected entries into the
/// current directory.
pub proof fn law_copy_then_paste(v: AppView, now: u64)
    requires
        v.selected_paths().len() > 0,
    ensures
        v.after_clip(ClipboardOp::Copy, now).after_paste().1 == (ActionView::CopyEntries {
            sources: v.selected_paths(),
            dest: v.current_dir,
        }),
{
}

/// Toggling the selection of an entry twice (the cursor back on it in
/// between) leaves the same entries selected.
pub proof fn law_toggle_twice(v: AppView)
    requires
        v.wf(),
        !(v.mode is Visual),
        v.current_real_index() is Some,
    ensures
        (AppView { cursor: v.cursor, ..v.after_toggle_select() }).after_toggle_select().selected.to_set()
            == v.selected.to_set(),
{
    let i = v.current_real_index()->0;
    let w = v.after_toggle_select();
    let w2 = AppView { cursor: v.cursor, ..w };
    assert(w2.current_real_index() == Some(i));
    let s = v.selected;
    if s.contains(i) {
        s.index_of_first_ensures(i);
        let k = s.index_of_first(i)->0;
        let r = s.remove(k);
        assert(w.selected == r);
        assert(!r.contains(i)) by {
            if r.contains(i) {
                let j = choose|j: int| 0 <= j < r.len() && r[j] == i;
                if j < k {
                    assert(s[j] == i);
                } else {
                    assert(s[j + 1] == i);
                    assert(s[j + 1] == s[k]);
                }
            }
        }
        assert(w2.after_toggle_select().selected == r.push(i));
        assert(r.push(i).to_set() =~= s.to_set()) by {
            assert forall|x: usize| r.push(i).to_set().contains(x) == s.to_set().contains(x) by {
                if r.push(i).contains(x) {
                    let j = choose|j: int| 0 <= j < r.push(i).len() && r.push(i)[j] == x;
                    if j < r.len() {
                        if j < k {
                            assert(s[j] == x);
                        } else {
                            assert(s[j + 1] == x);
                        }
                    } else {
                        assert(s[k] == x);
                    }
                }
                if s.contains(x) {
                    let j = choose|j: int| 0 <= j < s.len() && s[j] == x;
                    if j < k {
                        assert(r.push(i)[j] == x);
                    } else if j == k {
                        assert(r.push(i)[r.len() as int] == x);
                    } else {
                        assert(r.push(i)[j - 1] == x);
                    }
                }
            }
        }
    } else {
        let p = s.push(i);
        assert(w.selected == p);
        p.index_of_first_ensures(i);
        assert(p[s.len() as int] == i);
        let k = p.index_of_first(i)->0;
        assert(k == s.len()) by {
            if k < s.len() {
                assert(s[k] == i);
            }
        }
        assert(p.remove(k) =~= s);
    }
}

proof fn lemma_position_named(v: AppView, name: Seq<char>, k: nat, j: nat)
    requires
        k <= j < v.filtered.len(),
        v.entries[v.filtered[j as int] as int].name@ == name,
        v.filtered.len() <= isize::MAX,
    ensures
        v.position_named(name, k) matches Some(p) && p < v.filtered.len() && v.entries[v.filtered[p as int] as int].name@ == name,
    decreases j - k,
{
    if k < j && v.entries[v.filtered[k as int] as int].name@ != name {
        lemma_position_named(v, name, k + 1, j);
    }
}

/// After a listing arrives with a name to focus, the cursor is on a visible
/// entry of that name whenever one is visible (as after going to the parent
/// directory: the directory left is under the cursor).
pub proof fn law_listing_focuses(
    v: AppView,
    sorted: Seq<FileEntry>,
    had_parent: bool,
    parent_read: bool,
    sorted_parent: Seq<FileEntry>,
    name: Seq<char>,
)
    requires
        sorted.len() <= isize::MAX,
    ensures
        ({
            let w = v.listed(sorted, had_parent, parent_read, sorted_parent, Some(name));
            (exists|j: int| 0 <= j < w.filtered.len() && w.entries[w.filtered[j] as int].name@ == name)
                ==> w.cursor < w.filtered.len() && w.entries[w.filtered[w.cursor as int] as int].name@ == name
        }),
{
    let w = v.listed(sorted, had_parent, parent_read, sorted_parent, Some(name));
    let f = spec_filtered(sorted, v.show_hidden, v.filter);
    lemma_filtered_members(sorted, v.show_hidden, v.filter);
    if exists|j: int| 0 <= j < w.filtered.len() && w.entries[w.filtered[j] as int].name@ == name {
        let j = choose|j: int| 0 <= j < w.filtered.len() && w.entries[w.filtered[j] as int].name@ == name;
        let base = AppView { entries: sorted, ..v }.refiltered();
        let w2 = if had_parent {
            if parent_read {
                AppView { parent_entries: sorted_parent, ..base }
            } else {
                base
            }
        } else {
            AppView { parent_entries: Seq::empty(), ..base }
        };
        assert(w2.filtered == f);
        assert(f.len() <= sorted.len()) by {
            lemma_filtered_len(sorted, v.show_hidden, v.filter);
        }
        lemma_position_named(w2, name, 0, j as nat);
    }
}

proof fn lemma_filtered_len(entries: Seq<FileEntry>, show_hidden: bool, filter: Option<Seq<char>>)
    ensures
        spec_filtered(entries, show_hidden, filter).len() <= entries.len(),
    decreases entries.len(),
{
    if entries.len() > 0 {
        lemma_filtered_len(entries.drop_last(), show_hidden, filter);
    }
}

/// Sorting the listing again with the same settings leaves the state as it
/// is: the sort is stable and deterministic.
pub proof fn law_resort_again(v: AppView, s1: Seq<FileEntry>, s2: Seq<FileEntry>)
    requires
        v.entries.len() <= usize::MAX,
        is_stable_sort_of(s1, v.entries, v.sort_order()),
        is_stable_sort_of(s2, s1, v.resorted(s1).sort_order()),
    ensures
        s2 == s1,
        v.resorted(s1).resorted(s2) == v.resorted(s1),
{
    crate::sort::lemma_entry_order_total_preorder(
        v.sort_field,
        v.sort_ascending,
        v.config.sort.dirs_first,
    );
    crate::sorting::law_stable_sort_idempotent(v.entries, v.sort_order(), s1, s2);
}

} // verus!
