//! The user's last view mode of every file, for as long as the process runs.

use vstd::prelude::*;

use crate::text_map::TextMap;

verus! {

/// The last known view mode of a file.
#[derive(Clone, Copy, Debug, PartialEq, Eq, Structural)]
pub enum EditorViewMode {
    /// Source text that cannot be edited.
    SourceReadOnly,
    /// Source text that can be edited.
    SourceEditable,
    /// The rendered preview of a markdown file.
    MarkdownRendered,
}

impl EditorViewMode {
    /// Whether this mode is a source view that is locked against editing.
    pub fn is_source_read_only(self) -> (r: bool)
        ensures
            r == (self == EditorViewMode::SourceReadOnly),
    {
        matches!(self, EditorViewMode::SourceReadOnly)
    }
}

/// The user's last view mode by the path of the file in its worktree.
///
/// The process holds at most one memory; it comes into being with the first
/// mode that is remembered. Files at the same path of different worktrees
/// share an entry.
#[derive(Debug)]
pub struct EditorViewModeMemory {
    by_path: TextMap<EditorViewMode>,
}

impl View for EditorViewModeMemory {
    type V = Map<Seq<char>, EditorViewMode>;

    closed spec fn view(&self) -> Map<Seq<char>, EditorViewMode> {
        self.by_path@
    }
}

/// What a process remembers, with or without a memory yet.
pub open spec fn remembered(memory: Option<EditorViewModeMemory>) -> Map<
    Seq<char>,
    EditorViewMode,
> {
    match memory {
        Some(memory) => memory@,
        None => Map::empty(),
    }
}

/// The mode that `modes` has for `path`.
pub open spec fn mode_of(modes: Map<Seq<char>, EditorViewMode>, path: Seq<char>) -> Option<
    EditorViewMode,
> {
    if modes.contains_key(path) {
        Some(modes[path])
    } else {
        None
    }
}

impl EditorViewModeMemory {
    /// A memory without entries.
    pub fn new() -> (r: EditorViewModeMemory)
        ensures
            r@ == Map::<Seq<char>, EditorViewMode>::empty(),
    {
        EditorViewModeMemory { by_path: TextMap::new() }
    }

    /// The mode that the file at `path` was left in, if it was remembered.
    pub fn get(memory: &Option<EditorViewModeMemory>, path: &str) -> (r: Option<EditorViewMode>)
        ensures
            r == mode_of(remembered(*memory), path@),
    {
        match memory {
            Some(memory) => match memory.by_path.get(path) {
                Some(mode) => Some(*mode),
                None => None,
            },
            None => None,
        }
    }

    /// Remembers the mode of the file at `path`.
    pub fn set(memory: &mut Option<EditorViewModeMemory>, path: String, mode: EditorViewMode)
        ensures
            *final(memory) is Some,
            remembered(*final(memory)) == remembered(*old(memory)).insert(path@, mode),
    {
        let mut current = match memory.take() {
            Some(current) => current,
            None => EditorViewModeMemory::new(),
        };
        current.by_path.insert(path, mode);
        *memory = Some(current);
    }
}

impl Default for EditorViewModeMemory {
    fn default() -> (r: EditorViewModeMemory)
        ensures
            r@ == Map::<Seq<char>, EditorViewMode>::empty(),
    {
        EditorViewModeMemory::new()
    }
}

/// A mode that was just remembered is the one that is given back, and the
/// modes of the other files stay.
pub proof fn last_mode_is_remembered(
    modes: Map<Seq<char>, EditorViewMode>,
    path: Seq<char>,
    mode: EditorViewMode,
    other: Seq<char>,
)
    ensures
        mode_of(modes.insert(path, mode), path) == Some(mode),
        other != path ==> mode_of(modes.insert(path, mode), other) == mode_of(modes, other),
{
}

/// Before anything is remembered, no file has a mode.
pub proof fn new_session_remembers_nothing(path: Seq<char>)
    ensures
        mode_of(remembered(None), path) is None,
{
}

/// A file has a mode if and only if one was remembered for its path, and then
/// that one; a process without a memory has none for any file.
pub proof fn mode_is_that_of_the_path(
    memory: EditorViewModeMemory,
    modes: Map<Seq<char>, EditorViewMode>,
    path: Seq<char>,
)
    ensures
        mode_of(modes, path) is Some <==> modes.contains_key(path),
        modes.contains_key(path) ==> mode_of(modes, path)->0 == modes[path],
        remembered(Some(memory)) == memory@,
        !remembered(None).contains_key(path),
{
}

} // verus!
