//! What the panes and the status bar show: the decisions behind the drawing,
//! as plain values that the terminal front end renders.

use vstd::prelude::*;
use crate::app::{App, AppMode, AppView, ConfirmAction, InputContext, ModeView, StatusLevel};
use crate::entry::{EntryKind, FileEntry};
use crate::error::joined;
use crate::event::spec_field_label;
use crate::paths::{path_file_name, path_parent, spec_path_file_name, spec_path_parent};
use crate::text::{decimal, push_decimal, strings_view};

verus! {

/// The status bar: a message when there is one, otherwise what the mode shows.
#[derive(Debug)]
pub enum StatusBar {
    /// Mode, current directory, sort, selection count and cursor position.
    Normal { mode: String, path: String, sort: String, selection: String, position: String },
    /// An input line: its prompt and what was typed.
    Input { prompt: String, buffer: String },
    /// A question awaiting Enter or Escape.
    Confirm(String),
    Message { text: String, level: StatusLevel },
}

pub enum StatusBarView {
    Normal {
        mode: Seq<char>,
        path: Seq<char>,
        sort: Seq<char>,
        selection: Seq<char>,
        position: Seq<char>,
    },
    Input { prompt: Seq<char>, buffer: Seq<char> },
    Confirm(Seq<char>),
    Message { text: Seq<char>, level: StatusLevel },
}

impl View for StatusBar {
    type V = StatusBarView;

    open spec fn view(&self) -> StatusBarView {
        match self {
            StatusBar::Normal { mode, path, sort, selection, position } => StatusBarView::Normal {
                mode: mode@,
                path: path@,
                sort: sort@,
                selection: selection@,
                position: position@,
            },
            StatusBar::Input { prompt, buffer } => StatusBarView::Input {
                prompt: prompt@,
                buffer: buffer@,
            },
            StatusBar::Confirm(t) => StatusBarView::Confirm(t@),
            StatusBar::Message { text, level } => StatusBarView::Message { text: text@, level: *level },
        }
    }
}

/// The prompt of an input mode.
pub open spec fn input_prompt(m: ModeView) -> Seq<char> {
    match m {
        ModeView::Search => "Search: "@,
        ModeView::Filter => "Filter: "@,
        ModeView::Command => ":"@,
        ModeView::Rename(_) => "Rename: "@,
        ModeView::CreateFile => "New file: "@,
        ModeView::CreateDir => "New dir: "@,
        _ => "> "@,
    }
}

/// What the status bar shows for a state.
pub open spec fn spec_status_bar(v: AppView) -> StatusBarView {
    match v.status {
        Some(m) => StatusBarView::Message { text: m.text, level: m.level },
        None => match v.mode {
            ModeView::Normal | ModeView::Visual => StatusBarView::Normal {
                mode: if v.mode is Visual {
                    " VISUAL "@
                } else {
                    " NORMAL "@
                },
                path: " "@ + v.current_dir + " "@,
                sort: " ["@ + spec_field_label(v.sort_field) + if v.sort_ascending {
                    "\u{2191}"@
                } else {
                    "\u{2193}"@
                } + "] "@,
                selection: if v.selected.len() > 0 {
                    " "@ + decimal(v.selected.len()) + " selected "@
                } else {
                    Seq::empty()
                },
                position: if v.filtered.len() > 0 {
                    " "@ + decimal((v.cursor + 1) as nat) + "/"@ + decimal(v.filtered.len()) + " "@
                } else {
                    " empty "@
                },
            },
            ModeView::ConfirmDelete(paths) => StatusBarView::Confirm(
                "Delete "@ + decimal(paths.len()) + " item(s)? [Enter/Esc]"@,
            ),
            _ => StatusBarView::Input { prompt: input_prompt(v.mode), buffer: v.input },
        },
    }
}

fn prompt_of(mode: &AppMode) -> (r: &'static str)
    ensures
        r@ == input_prompt(mode@),
{
    match mode {
        AppMode::Search => "Search: ",
        AppMode::Filter => "Filter: ",
        AppMode::Command => ":",
        AppMode::Input(InputContext::Rename { .. }) => "Rename: ",
        AppMode::Input(InputContext::CreateFile) => "New file: ",
        AppMode::Input(InputContext::CreateDir) => "New dir: ",
        _ => "> ",
    }
}

/// What the status bar shows.
pub fn status_bar(app: &App) -> (r: StatusBar)
    requires
        app.wf(),
    ensures
        r@ == spec_status_bar(app@),
{
    if let Some(m) = &app.status_message {
        return StatusBar::Message { text: m.text.clone(), level: m.level };
    }
    match &app.mode {
        AppMode::Normal | AppMode::Visual => {
            let mode = if matches!(app.mode, AppMode::Visual) {
                " VISUAL "
            } else {
                " NORMAL "
            };
            let mut path = " ".to_owned();
            path.append(app.current_dir.as_str());
            path.append(" ");
            let mut sort = " [".to_owned();
            sort.append(app.sort_field.label());
            sort.append(
                if app.sort_ascending {
                    "\u{2191}"
                } else {
                    "\u{2193}"
                },
            );
            sort.append("] ");
            let selection = if app.selected.len() > 0 {
                let mut s = " ".to_owned();
                push_decimal(&mut s, app.selected.len() as u64);
                s.append(" selected ");
                s
            } else {
                String::new()
            };
            let position = if app.filtered_indices.len() > 0 {
                let mut s = " ".to_owned();
                push_decimal(&mut s, (app.cursor_index + 1) as u64);
                s.append("/");
                push_decimal(&mut s, app.filtered_indices.len() as u64);
                s.append(" ");
                s
            } else {
                " empty ".to_owned()
            };
            StatusBar::Normal { mode: mode.to_owned(), path, sort, selection, position }
        },
        AppMode::Confirm(ConfirmAction::Delete(paths)) => {
            let mut s = "Delete ".to_owned();
            push_decimal(&mut s, paths.len() as u64);
            s.append(" item(s)? [Enter/Esc]");
            assert(strings_view(paths@).len() == paths@.len());
            StatusBar::Confirm(s)
        },
        _ => StatusBar::Input {
            prompt: prompt_of(&app.mode).to_owned(),
            buffer: app.input_buffer.clone(),
        },
    }
}

/// The first row the file list shows so that the cursor is inside a viewport
/// of `viewport` rows.
pub open spec fn spec_list_scroll(cursor: usize, scroll: usize, viewport: usize) -> usize {
    if cursor >= scroll + viewport {
        (cursor - viewport + 1) as usize
    } else if cursor < scroll {
        cursor
    } else {
        scroll
    }
}

/// The file list scrolls as little as possible to keep the cursor in a
/// viewport of at least one row: afterwards the cursor is inside it; a cursor
/// already inside keeps the offset; one above becomes the top row, one below
/// the bottom row.
pub proof fn law_list_scroll(cursor: usize, scroll: usize, viewport: usize)
    requires
        viewport >= 1,
    ensures
        spec_list_scroll(cursor, scroll, viewport) <= cursor < spec_list_scroll(cursor, scroll, viewport)
            + viewport,
        scroll <= cursor < scroll + viewport ==> spec_list_scroll(cursor, scroll, viewport) == scroll,
        cursor < scroll ==> spec_list_scroll(cursor, scroll, viewport) == cursor,
        cursor >= scroll + viewport ==> spec_list_scroll(cursor, scroll, viewport) + viewport == cursor
            + 1,
{
}

pub fn list_scroll_offset(cursor: usize, scroll: usize, viewport: usize) -> (r: usize)
    requires
        scroll + viewport <= usize::MAX,
        cursor < usize::MAX,
    ensures
        r == spec_list_scroll(cursor, scroll, viewport),
{
    if cursor >= scroll + viewport {
        cursor - viewport + 1
    } else if cursor < scroll {
        cursor
    } else {
        scroll
    }
}

/// How an entry of a list is drawn.
#[derive(Debug, Clone, Copy, PartialEq, Eq, Structural)]
pub enum EntryStyle {
    Hidden,
    Directory,
    Symlink,
    Executable,
    Plain,
}

pub open spec fn spec_entry_style(e: FileEntry) -> EntryStyle {
    if e.is_hidden {
        EntryStyle::Hidden
    } else {
        match e.kind {
            EntryKind::Directory => EntryStyle::Directory,
            EntryKind::Symlink => EntryStyle::Symlink,
            EntryKind::File => if e.permissions.user.execute {
                EntryStyle::Executable
            } else {
                EntryStyle::Plain
            },
            _ => EntryStyle::Plain,
        }
    }
}

/// Hidden entries are dimmed; otherwise directories, links and executable
/// files each have their own look.
pub fn entry_style(e: &FileEntry) -> (r: EntryStyle)
    ensures
        r == spec_entry_style(*e),
{
    if e.is_hidden {
        EntryStyle::Hidden
    } else {
        match e.kind {
            EntryKind::Directory => EntryStyle::Directory,
            EntryKind::Symlink => EntryStyle::Symlink,
            EntryKind::File => if e.permissions.user.execute {
                EntryStyle::Executable
            } else {
                EntryStyle::Plain
            },
            _ => EntryStyle::Plain,
        }
    }
}

/// The mark in front of a selected entry.
pub fn selection_mark(selected: bool) -> (r: &'static str)
    ensures
        r@ == (if selected {
            "* "@
        } else {
            "  "@
        }),
{
    if selected {
        "* "
    } else {
        "  "
    }
}

/// The title of the file list: the directory's name (or `/`) and how many
/// entries are shown.
pub fn file_list_title(current_dir: &str, count: usize) -> (r: String)
    ensures
        r@ == " "@ + (match spec_path_file_name(current_dir@) {
            Some(n) => n,
            None => "/"@,
        }) + " ("@ + decimal(count as nat) + ") "@,
{
    let name = match path_file_name(current_dir) {
        Some(n) => n,
        None => "/".to_owned(),
    };
    let mut s = joined(" ", name.as_str());
    s.append(" (");
    push_decimal(&mut s, count as u64);
    s.append(") ");
    s
}

/// The title of the parent pane: the parent directory's name, or `/`.
pub fn parent_title(current_dir: &str) -> (r: String)
    ensures
        r@ == " "@ + (match spec_path_parent(current_dir@) {
            Some(p) => match spec_path_file_name(p) {
                Some(n) => n,
                None => "/"@,
            },
            None => "/"@,
        }) + " "@,
{
    let name = match path_parent(current_dir) {
        Some(p) => match path_file_name(p.as_str()) {
            Some(n) => n,
            None => "/".to_owned(),
        },
        None => "/".to_owned(),
    };
    let mut s = joined(" ", name.as_str());
    s.append(" ");
    s
}

/// The rows of the parent pane: the shown parent entries (all, or those not
/// hidden), as many as fit, each with whether it is the current directory.
pub open spec fn spec_tree_rows(v: AppView, viewport: nat) -> Seq<(int, bool)>
    decreases v.parent_entries.len(),
{
    let n = v.parent_entries.len();
    if n == 0 {
        Seq::empty()
    } else {
        let prev = spec_tree_rows(AppView { parent_entries: v.parent_entries.drop_last(), ..v }, viewport);
        let e = v.parent_entries.last();
        if (v.show_hidden || !e.is_hidden) && prev.len() < viewport {
            prev.push(
                (
                    n - 1,
                    e.kind == EntryKind::Directory && spec_path_file_name(v.current_dir) == Some(
                        e.name@,
                    ),
                ),
            )
        } else {
            prev
        }
    }
}

pub fn tree_rows(app: &App, viewport: usize) -> (r: Vec<(usize, bool)>)
    ensures
        r@.len() == spec_tree_rows(app@, viewport as nat).len(),
        forall|k: int|
            0 <= k < r@.len() ==> r@[k].0 as int == spec_tree_rows(app@, viewport as nat)[k].0
                && r@[k].1 == spec_tree_rows(app@, viewport as nat)[k].1,
{
    let ghost v = app@;
    let current = path_file_name(app.current_dir.as_str());
    let mut rows: Vec<(usize, bool)> = Vec::new();
    let mut i: usize = 0;
    while i < app.parent_entries.len()
        invariant
            i <= app.parent_entries@.len(),
            v == app@,
            match current {
                Some(c) => spec_path_file_name(v.current_dir) == Some(c@),
                None => spec_path_file_name(v.current_dir) is None,
            },
            rows@.len() == spec_tree_rows(
                AppView { parent_entries: v.parent_entries.take(i as int), ..v },
                viewport as nat,
            ).len(),
            forall|k: int|
                0 <= k < rows@.len() ==> rows@[k].0 as int == spec_tree_rows(
                    AppView { parent_entries: v.parent_entries.take(i as int), ..v },
                    viewport as nat,
                )[k].0 && rows@[k].1 == spec_tree_rows(
                    AppView { parent_entries: v.parent_entries.take(i as int), ..v },
                    viewport as nat,
                )[k].1,
        decreases app.parent_entries.len() - i,
    {
        let e = &app.parent_entries[i];
        let ghost w = AppView { parent_entries: v.parent_entries.take(i + 1), ..v };
        assert(w.parent_entries.drop_last() =~= v.parent_entries.take(i as int));
        assert((AppView { parent_entries: w.parent_entries.drop_last(), ..w }) == (AppView {
            parent_entries: v.parent_entries.take(i as int),
            ..v
        }));
        assert(w.parent_entries.last() == *e);
        if (app.show_hidden || !e.is_hidden) && rows.len() < viewport {
            let is_current = e.kind == EntryKind::Directory && match &current {
                Some(c) => crate::text::str_eq(c.as_str(), e.name.as_str()),
                None => false,
            };
            rows.push((i, is_current));
        }
        i = i + 1;
    }
    assert(v.parent_entries.take(app.parent_entries.len() as int) =~= v.parent_entries);
    rows
}

/// The share of the width each pane gets, as (part, whole): the parent and
/// current panes, and the preview pane when it is shown.
pub open spec fn spec_pane_shares(show_preview: bool, ratios: [u16; 3]) -> Seq<(u32, u32)> {
    let l = ratios[0] as u32;
    let c = ratios[1] as u32;
    let r = ratios[2] as u32;
    if show_preview {
        let total = (l + c + r) as u32;
        seq![(l, total), (c, total), (r, total)]
    } else {
        let total = (l + c) as u32;
        seq![(l, total), (c, total)]
    }
}

pub fn pane_shares(show_preview: bool, ratios: [u16; 3]) -> (r: Vec<(u32, u32)>)
    requires
        show_preview ==> ratios[0] + ratios[1] + ratios[2] <= u16::MAX,
        !show_preview ==> ratios[0] + ratios[1] <= u16::MAX,
    ensures
        r@ == spec_pane_shares(show_preview, ratios),
{
    let l = ratios[0];
    let c = ratios[1];
    let rr = ratios[2];
    let mut v: Vec<(u32, u32)> = Vec::new();
    if show_preview {
        let total = (l + c + rr) as u32;
        v.push((l as u32, total));
        v.push((c as u32, total));
        v.push((rr as u32, total));
    } else {
        let total = (l + c) as u32;
        v.push((l as u32, total));
        v.push((c as u32, total));
    }
    v
}

/// Where the confirmation dialog goes on a screen of `width` by `height`
/// cells: at most 50 by 5, centred, as (x, y, width, height).
pub open spec fn spec_dialog_rect(width: u16, height: u16) -> (u16, u16, u16, u16) {
    let w: u16 = if width >= 4 {
        if (width - 4) as u16 <= 50 { (width - 4) as u16 } else { 50 }
    } else {
        0
    };
    let h: u16 = if height >= 4 {
        if (height - 4) as u16 <= 5 { (height - 4) as u16 } else { 5 }
    } else {
        0
    };
    (((width - w) / 2) as u16, ((height - h) / 2) as u16, w, h)
}

pub fn dialog_rect(width: u16, height: u16) -> (r: (u16, u16, u16, u16))
    ensures
        r == spec_dialog_rect(width, height),
{
    let aw = width.saturating_sub(4);
    let w: u16 = if aw <= 50 {
        aw
    } else {
        50
    };
    let ah = height.saturating_sub(4);
    let h: u16 = if ah <= 5 {
        ah
    } else {
        5
    };
    ((width - w) / 2, (height - h) / 2, w, h)
}

/// What the preview pane shows for the entry under the cursor.
#[derive(Debug)]
pub enum PreviewPane {
    /// No entry is under the cursor.
    NoFile,
    /// An image, drawn over the pane by the terminal itself.
    ImageArea,
    /// An image the terminal cannot draw: its name and size are described.
    ImageInfo { name: String, size: u64 },
    /// The preview providers are asked for `path`, in a pane of `width` by
    /// `height` cells inside the border.
    Provider { path: String, width: u16, height: u16 },
}

pub enum PreviewPaneView {
    NoFile,
    ImageArea,
    ImageInfo { name: Seq<char>, size: u64 },
    Provider { path: Seq<char>, width: u16, height: u16 },
}

impl View for PreviewPane {
    type V = PreviewPaneView;

    open spec fn view(&self) -> PreviewPaneView {
        match self {
            PreviewPane::NoFile => PreviewPaneView::NoFile,
            PreviewPane::ImageArea => PreviewPaneView::ImageArea,
            PreviewPane::ImageInfo { name, size } => PreviewPaneView::ImageInfo {
                name: name@,
                size: *size,
            },
            PreviewPane::Provider { path, width, height } => PreviewPaneView::Provider {
                path: path@,
                width: *width,
                height: *height,
            },
        }
    }
}

pub open spec fn spec_preview_pane(v: AppView, kitty: bool, width: u16, height: u16) -> PreviewPaneView {
    match v.current_real_index() {
        None => PreviewPaneView::NoFile,
        Some(i) => {
            let e = v.entries[i as int];
            if e.kind == EntryKind::File && crate::entry::is_image_extension(
                crate::text::spec_lowercase(crate::paths::spec_extension_or_empty(e.path@)),
            ) {
                if kitty {
                    PreviewPaneView::ImageArea
                } else {
                    PreviewPaneView::ImageInfo { name: e.name@, size: e.size }
                }
            } else {
                PreviewPaneView::Provider {
                    path: e.path@,
                    width: if width >= 2 { (width - 2) as u16 } else { 0 },
                    height: if height >= 2 { (height - 2) as u16 } else { 0 },
                }
            }
        },
    }
}

/// What the preview pane of `width` by `height` cells shows; `kitty` says
/// whether the terminal draws images.
pub fn preview_pane(app: &App, kitty: bool, width: u16, height: u16) -> (r: PreviewPane)
    requires
        app.wf(),
    ensures
        r@ == spec_preview_pane(app@, kitty, width, height),
{
    match app.current_entry() {
        None => PreviewPane::NoFile,
        Some(e) => {
            if e.is_image_file() {
                if kitty {
                    PreviewPane::ImageArea
                } else {
                    PreviewPane::ImageInfo { name: e.name.clone(), size: e.size }
                }
            } else {
                PreviewPane::Provider {
                    path: e.path.clone(),
                    width: width.saturating_sub(2),
                    height: height.saturating_sub(2),
                }
            }
        },
    }
}

} // verus!
