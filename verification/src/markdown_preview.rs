//! When a markdown file is shown rendered, and when as source.

use vstd::prelude::*;

use crate::text::{ascii_lowered, to_ascii_lowercase};
use crate::view_mode_memory::{mode_of, remembered, EditorViewMode, EditorViewModeMemory};

verus! {

/// A buffer, as far as it matters here.
#[derive(Debug, PartialEq, Eq)]
pub struct Buffer {
    /// Path of its file in the worktree, if it has a file.
    pub path: Option<String>,
    /// Name of its language, if it has one.
    pub language: Option<String>,
}

/// An editor with the one buffer it shows, if it shows just one.
#[derive(Debug, PartialEq, Eq)]
pub struct SourceEditor {
    pub buffer: Option<Buffer>,
}

/// The item that the active pane shows.
#[derive(Debug, PartialEq, Eq)]
pub enum ActiveItem {
    /// A rendered preview, with the editor it was made from.
    MarkdownPreview { source_editor: Option<SourceEditor> },
    Editor { editor: SourceEditor },
    Other,
}

/// How the active item changes.
#[derive(Clone, Copy, Debug, PartialEq, Eq, Structural)]
pub enum ToggleAction {
    Nothing,
    /// Replace the item at `index` by a new editor for its buffer, which is
    /// read-only or not.
    ReplaceWithEditor { index: usize, read_only: bool },
    /// Replace the item at `index` by a preview of its editor.
    ReplaceWithPreview { index: usize },
}

/// What toggling does to the item: the action, and the mode in which the file
/// at the given path is left.
pub open spec fn toggled(active: Option<(ActiveItem, usize)>) -> (
    ToggleAction,
    Option<(Seq<char>, EditorViewMode)>,
) {
    match active {
        Some((ActiveItem::MarkdownPreview { source_editor: Some(editor) }, index)) => match editor.buffer {
            Some(buffer) => (
                ToggleAction::ReplaceWithEditor { index, read_only: false },
                match buffer.path {
                    Some(path) => Some((path@, EditorViewMode::SourceEditable)),
                    None => None,
                },
            ),
            None => (ToggleAction::Nothing, None),
        },
        Some((ActiveItem::Editor { editor }, index)) => match editor.buffer {
            Some(buffer) => if buffer.language is Some && buffer.language->0@ == "Markdown"@ {
                (
                    ToggleAction::ReplaceWithPreview { index },
                    match buffer.path {
                        Some(path) => Some((path@, EditorViewMode::MarkdownRendered)),
                        None => None,
                    },
                )
            } else {
                (ToggleAction::Nothing, None)
            },
            None => (ToggleAction::Nothing, None),
        },
        _ => (ToggleAction::Nothing, None),
    }
}

/// `modes` with one more mode remembered, if there is one.
pub open spec fn with_mode(
    modes: Map<Seq<char>, EditorViewMode>,
    left: Option<(Seq<char>, EditorViewMode)>,
) -> Map<Seq<char>, EditorViewMode> {
    match left {
        Some((path, mode)) => modes.insert(path, mode),
        None => modes,
    }
}

/// Swaps the active item between a markdown preview and an editable source
/// editor of the same buffer, in place, and remembers the mode of the file.
/// Whatever is neither a preview nor an editor of a markdown buffer stays.
pub fn toggle_markdown_source_mode(
    memory: &mut Option<EditorViewModeMemory>,
    active: &Option<(ActiveItem, usize)>,
) -> (r: ToggleAction)
    ensures
        r == toggled(*active).0,
        remembered(*final(memory)) == with_mode(remembered(*old(memory)), toggled(*active).1),
        toggled(*active).1 is None ==> *final(memory) == *old(memory),
{
    match active {
        Some((ActiveItem::MarkdownPreview { source_editor: Some(editor) }, index)) => {
            match &editor.buffer {
                Some(buffer) => {
                    if let Some(path) = &buffer.path {
                        EditorViewModeMemory::set(
                            memory,
                            path.clone(),
                            EditorViewMode::SourceEditable,
                        );
                    }
                    ToggleAction::ReplaceWithEditor { index: *index, read_only: false }
                },
                None => ToggleAction::Nothing,
            }
        },
        Some((ActiveItem::Editor { editor }, index)) => {
            match &editor.buffer {
                Some(buffer) => {
                    let is_markdown = match &buffer.language {
                        Some(name) => *name == "Markdown".to_owned(),
                        None => false,
                    };
                    if !is_markdown {
                        return ToggleAction::Nothing;
                    }
                    if let Some(path) = &buffer.path {
                        EditorViewModeMemory::set(
                            memory,
                            path.clone(),
                            EditorViewMode::MarkdownRendered,
                        );
                    }
                    ToggleAction::ReplaceWithPreview { index: *index }
                },
                None => ToggleAction::Nothing,
            }
        },
        _ => ToggleAction::Nothing,
    }
}

/// The extensions of markdown files, in lower case.
pub open spec fn is_markdown_extension(extension: Seq<char>) -> bool {
    ||| extension == "md"@
    ||| extension == "markdown"@
    ||| extension == "mkd"@
    ||| extension == "mdown"@
}

/// Whether a file opens as a preview: files open read-only by default, it has
/// the extension of a markdown file in any case, and the user has not left it
/// in a source mode.
pub open spec fn opens_as_preview(
    default_read_only_on_open: bool,
    extension: Option<Seq<char>>,
    mode: Option<EditorViewMode>,
) -> bool {
    &&& default_read_only_on_open
    &&& extension is Some && is_markdown_extension(ascii_lowered(extension->0))
    &&& mode != Some(EditorViewMode::SourceEditable)
    &&& mode != Some(EditorViewMode::SourceReadOnly)
}

/// Whether the file at `path` with the extension `extension` opens as a
/// preview. Otherwise the usual editor opens it.
pub fn open_md_as_preview(
    default_read_only_on_open: bool,
    path: &str,
    extension: Option<&str>,
    memory: &Option<EditorViewModeMemory>,
) -> (r: bool)
    ensures
        r == opens_as_preview(
            default_read_only_on_open,
            match extension {
                Some(extension) => Some(extension@),
                None => None,
            },
            mode_of(remembered(*memory), path@),
        ),
{
    if !default_read_only_on_open {
        return false;
    }
    let lower = match extension {
        Some(extension) => to_ascii_lowercase(extension),
        None => return false,
    };
    if lower != "md".to_owned() && lower != "markdown".to_owned() && lower != "mkd".to_owned()
        && lower != "mdown".to_owned() {
        return false;
    }
    !matches!(
        EditorViewModeMemory::get(memory, path),
        Some(EditorViewMode::SourceEditable) | Some(EditorViewMode::SourceReadOnly)
    )
}

/// A file that was toggled opens again in the view it was toggled to: as
/// source it is left to the usual editor, and rendered it opens as a preview
/// as far as the setting and the extension have it.
pub proof fn toggled_view_is_reopened(
    modes: Map<Seq<char>, EditorViewMode>,
    active: Option<(ActiveItem, usize)>,
    default_read_only_on_open: bool,
    extension: Option<Seq<char>>,
)
    requires
        toggled(active).1 is Some,
    ensures
        ({
            let (path, _) = toggled(active).1->0;
            let mode = mode_of(with_mode(modes, toggled(active).1), path);
            &&& toggled(active).0 is ReplaceWithEditor ==> !opens_as_preview(
                default_read_only_on_open,
                extension,
                mode,
            )
            &&& toggled(active).0 is ReplaceWithPreview ==> opens_as_preview(
                default_read_only_on_open,
                extension,
                mode,
            ) == opens_as_preview(default_read_only_on_open, extension, None)
        }),
{
}

/// Toggling a preview to source and the source of the same markdown buffer
/// back leaves the tab at its index and the file remembered as rendered.
pub proof fn toggling_twice_renders_again(
    modes: Map<Seq<char>, EditorViewMode>,
    buffer: Buffer,
    index: usize,
)
    requires
        buffer.path is Some,
        buffer.language is Some,
        buffer.language->0@ == "Markdown"@,
    ensures
        ({
            let editor = SourceEditor { buffer: Some(buffer) };
            let there = toggled(
                Some((ActiveItem::MarkdownPreview { source_editor: Some(editor) }, index)),
            );
            let back = toggled(Some((ActiveItem::Editor { editor }, index)));
            &&& there.0 == (ToggleAction::ReplaceWithEditor { index, read_only: false })
            &&& back.0 == ToggleAction::ReplaceWithPreview { index }
            &&& with_mode(with_mode(modes, there.1), back.1) == modes.insert(
                buffer.path->0@,
                EditorViewMode::MarkdownRendered,
            )
        }),
{
    assert(modes.insert(buffer.path->0@, EditorViewMode::SourceEditable).insert(
        buffer.path->0@,
        EditorViewMode::MarkdownRendered,
    ) =~= modes.insert(buffer.path->0@, EditorViewMode::MarkdownRendered));
}

/// Toggling leaves what is remembered of all other files alone.
pub proof fn toggling_affects_one_file(
    modes: Map<Seq<char>, EditorViewMode>,
    active: Option<(ActiveItem, usize)>,
    other: Seq<char>,
)
    requires
        toggled(active).1 matches Some((path, _)) ==> path != other,
    ensures
        mode_of(with_mode(modes, toggled(active).1), other) == mode_of(modes, other),
{
}

/// A preview that has the editor of a buffer becomes an editor of that buffer
/// at the same index, which can be edited, and the file is remembered so.
pub proof fn preview_becomes_editable_source(buffer: Buffer, index: usize)
    ensures
        ({
            let editor = SourceEditor { buffer: Some(buffer) };
            let (action, left) = toggled(
                Some((ActiveItem::MarkdownPreview { source_editor: Some(editor) }, index)),
            );
            &&& action == (ToggleAction::ReplaceWithEditor { index, read_only: false })
            &&& left is Some <==> buffer.path is Some
            &&& left is Some ==> left->0 == (buffer.path->0@, EditorViewMode::SourceEditable)
        }),
{
}

/// An editor becomes a preview at the same index if and only if its one buffer
/// is markdown, whether the file has the extension for it or not, and the file
/// is remembered so.
pub proof fn markdown_source_becomes_preview(buffer: Buffer, index: usize)
    ensures
        ({
            let editor = SourceEditor { buffer: Some(buffer) };
            let (action, left) = toggled(Some((ActiveItem::Editor { editor }, index)));
            let markdown = buffer.language is Some && buffer.language->0@ == "Markdown"@;
            &&& markdown ==> action == (ToggleAction::ReplaceWithPreview { index })
            &&& !markdown ==> action is Nothing
            &&& left is Some <==> markdown && buffer.path is Some
            &&& left is Some ==> left->0 == (buffer.path->0@, EditorViewMode::MarkdownRendered)
        }),
{
}

/// Toggling does nothing without an item, for an item of another kind, for a
/// preview without an editor, and for an editor or the editor of a preview that
/// does not show just one buffer.
pub proof fn other_items_are_not_toggled(index: usize)
    ensures
        ({
            let editor = SourceEditor { buffer: None };
            let nothing = (ToggleAction::Nothing, None::<(Seq<char>, EditorViewMode)>);
            &&& toggled(None) == nothing
            &&& toggled(Some((ActiveItem::Other, index))) == nothing
            &&& toggled(Some((ActiveItem::MarkdownPreview { source_editor: None }, index)))
                == nothing
            &&& toggled(Some((ActiveItem::MarkdownPreview { source_editor: Some(editor) }, index)))
                == nothing
            &&& toggled(Some((ActiveItem::Editor { editor }, index))) == nothing
        }),
{
}

/// What is left after toggling is remembered for its path, and nothing else
/// changes.
pub proof fn toggled_mode_is_remembered(
    modes: Map<Seq<char>, EditorViewMode>,
    path: Seq<char>,
    mode: EditorViewMode,
)
    ensures
        with_mode(modes, Some((path, mode))) == modes.insert(path, mode),
        with_mode(modes, None) == modes,
{
}

/// A file opens as a preview if and only if files open read-only by default,
/// its extension in lower case is one of the four of markdown, and it was not
/// left in a source mode.
pub proof fn markdown_files_open_as_preview(
    default_read_only_on_open: bool,
    extension: Option<Seq<char>>,
    mode: Option<EditorViewMode>,
)
    ensures
        opens_as_preview(default_read_only_on_open, extension, mode) <==> {
            &&& default_read_only_on_open
            &&& extension is Some
            &&& {
                let lower = ascii_lowered(extension->0);
                lower == "md"@ || lower == "markdown"@ || lower == "mkd"@ || lower == "mdown"@
            }
            &&& mode is None || mode->0 == EditorViewMode::MarkdownRendered
        },
{
    if mode is Some {
        match mode->0 {
            EditorViewMode::SourceReadOnly => {},
            EditorViewMode::SourceEditable => {},
            EditorViewMode::MarkdownRendered => {},
        }
    }
}

} // verus!
