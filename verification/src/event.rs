//! Commands the application understands, and sort fields.

use vstd::prelude::*;

verus! {

#[derive(Debug, Clone)]
pub enum AppCommand {
    // Navigation
    CursorUp,
    CursorDown,
    CursorTop,
    CursorBottom,
    PageUp,
    PageDown,
    EnterDirectory,
    ParentDirectory,
    GoBack,
    GoForward,
    // Selection
    ToggleSelect,
    SelectAll,
    ClearSelection,
    VisualMode,
    NormalMode,
    // File operations
    Copy,
    Cut,
    Paste,
    Delete,
    Rename,
    CreateFile,
    CreateDir,
    // Sorting
    SortBy(SortField),
    SortNext,
    ToggleSortOrder,
    // UI
    TogglePreview,
    ToggleHidden,
    Refresh,
    // Search/Filter
    SearchMode,
    FilterMode,
    SearchNext,
    SearchPrev,
    ConfirmInput,
    CancelInput,
    // Application
    Quit,
    ForceQuit,
    CommandMode,
    // Plugin
    PluginCommand { plugin: String, command: String, args: Vec<String> },
}

#[derive(Debug, Clone, Copy, PartialEq, Eq, Structural)]
pub enum SortField {
    Name,
    Size,
    Modified,
    Extension,
}

/// The field that follows `f` in the cycle name, size, modified, extension.
pub open spec fn spec_next_field(f: SortField) -> SortField {
    match f {
        SortField::Name => SortField::Size,
        SortField::Size => SortField::Modified,
        SortField::Modified => SortField::Extension,
        SortField::Extension => SortField::Name,
    }
}

pub open spec fn spec_field_label(f: SortField) -> Seq<char> {
    match f {
        SortField::Name => "name"@,
        SortField::Size => "size"@,
        SortField::Modified => "modified"@,
        SortField::Extension => "extension"@,
    }
}

impl SortField {
    pub fn next(self) -> (r: Self)
        ensures
            r == spec_next_field(self),
    {
        match self {
            SortField::Name => SortField::Size,
            SortField::Size => SortField::Modified,
            SortField::Modified => SortField::Extension,
            SortField::Extension => SortField::Name,
        }
    }

    pub fn label(self) -> (r: &'static str)
        ensures
            r@ == spec_field_label(self),
    {
        match self {
            SortField::Name => "name",
            SortField::Size => "size",
            SortField::Modified => "modified",
            SortField::Extension => "extension",
        }
    }
}

/// Stepping through the sort fields four times comes back to the start, and
/// never earlier.
pub proof fn lemma_next_field_cycle(f: SortField)
    ensures
        spec_next_field(spec_next_field(spec_next_field(spec_next_field(f)))) == f,
        spec_next_field(f) != f,
        spec_next_field(spec_next_field(f)) != f,
        spec_next_field(spec_next_field(spec_next_field(f))) != f,
{
}

#[derive(Debug, Clone)]
pub enum TaskResult {
    CopyComplete { count: usize },
    MoveComplete { count: usize },
    DeleteComplete { count: usize },
    Error(String),
}

} // verus!
