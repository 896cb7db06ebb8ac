use editor_session::markdown_preview::{
    open_md_as_preview, toggle_markdown_source_mode, ActiveItem, Buffer, SourceEditor,
    ToggleAction,
};
use editor_session::view_mode_memory::{EditorViewMode, EditorViewModeMemory};

fn editor(path: Option<&str>, language: Option<&str>) -> SourceEditor {
    SourceEditor {
        buffer: Some(Buffer {
            path: path.map(|p| p.to_string()),
            language: language.map(|l| l.to_string()),
        }),
    }
}

fn preview_item(path: Option<&str>) -> ActiveItem {
    ActiveItem::MarkdownPreview {
        source_editor: Some(editor(path, Some("Markdown"))),
    }
}

#[test]
fn read_only_source_is_locked() {
    assert!(EditorViewMode::SourceReadOnly.is_source_read_only());
    assert!(!EditorViewMode::SourceEditable.is_source_read_only());
    assert!(!EditorViewMode::MarkdownRendered.is_source_read_only());
}

#[test]
fn memory_starts_empty_and_keeps_the_last_mode() {
    let mut memory: Option<EditorViewModeMemory> = None;
    assert_eq!(EditorViewModeMemory::get(&memory, "a.md"), None);
    EditorViewModeMemory::set(&mut memory, "a.md".to_string(), EditorViewMode::SourceEditable);
    EditorViewModeMemory::set(&mut memory, "b.rs".to_string(), EditorViewMode::SourceReadOnly);
    EditorViewModeMemory::set(&mut memory, "a.md".to_string(), EditorViewMode::MarkdownRendered);
    assert_eq!(
        EditorViewModeMemory::get(&memory, "a.md"),
        Some(EditorViewMode::MarkdownRendered)
    );
    assert_eq!(
        EditorViewModeMemory::get(&memory, "b.rs"),
        Some(EditorViewMode::SourceReadOnly)
    );
    assert_eq!(EditorViewModeMemory::get(&memory, "c"), None);
}

#[test]
fn preview_toggles_to_source() {
    let mut memory = None;
    let action = toggle_markdown_source_mode(&mut memory, &Some((preview_item(Some("a.md")), 3)));
    assert_eq!(
        action,
        ToggleAction::ReplaceWithEditor {
            index: 3,
            read_only: false
        }
    );
    assert_eq!(
        EditorViewModeMemory::get(&memory, "a.md"),
        Some(EditorViewMode::SourceEditable)
    );
    assert!(!open_md_as_preview(true, "a.md", Some("md"), &memory));
}

#[test]
fn markdown_source_toggles_to_preview() {
    let mut memory = None;
    EditorViewModeMemory::set(&mut memory, "a.md".to_string(), EditorViewMode::SourceEditable);
    let item = ActiveItem::Editor {
        editor: editor(Some("a.md"), Some("Markdown")),
    };
    let action = toggle_markdown_source_mode(&mut memory, &Some((item, 1)));
    assert_eq!(action, ToggleAction::ReplaceWithPreview { index: 1 });
    assert_eq!(
        EditorViewModeMemory::get(&memory, "a.md"),
        Some(EditorViewMode::MarkdownRendered)
    );
    assert!(open_md_as_preview(true, "a.md", Some("md"), &memory));
}

#[test]
fn toggling_without_a_file_remembers_nothing() {
    let mut memory = None;
    let action = toggle_markdown_source_mode(&mut memory, &Some((preview_item(None), 0)));
    assert_eq!(
        action,
        ToggleAction::ReplaceWithEditor {
            index: 0,
            read_only: false
        }
    );
    assert!(memory.is_none());
}

#[test]
fn other_items_are_not_toggled() {
    let items = vec![
        None,
        Some((ActiveItem::Other, 0)),
        Some((ActiveItem::MarkdownPreview { source_editor: None }, 0)),
        Some((
            ActiveItem::MarkdownPreview {
                source_editor: Some(SourceEditor { buffer: None }),
            },
            0,
        )),
        Some((
            ActiveItem::Editor {
                editor: SourceEditor { buffer: None },
            },
            0,
        )),
        Some((
            ActiveItem::Editor {
                editor: editor(Some("a.rs"), Some("Rust")),
            },
            0,
        )),
        Some((
            ActiveItem::Editor {
                editor: editor(Some("a.md"), None),
            },
            0,
        )),
        Some((
            ActiveItem::Editor {
                editor: editor(Some("a.md"), Some("markdown")),
            },
            0,
        )),
    ];
    for item in items {
        let mut memory = None;
        assert_eq!(
            toggle_markdown_source_mode(&mut memory, &item),
            ToggleAction::Nothing
        );
        assert!(memory.is_none());
    }
}

#[test]
fn markdown_extensions_open_as_preview_in_any_case() {
    for extension in ["md", "markdown", "mkd", "mdown", "MD", "Markdown", "mKD"] {
        assert!(open_md_as_preview(true, "a", Some(extension), &None));
        assert!(!open_md_as_preview(false, "a", Some(extension), &None));
    }
    for extension in ["", "mdx", "txt", "m", "md "] {
        assert!(!open_md_as_preview(true, "a", Some(extension), &None));
    }
    assert!(!open_md_as_preview(true, "a", None, &None));
}

#[test]
fn source_modes_keep_a_file_from_its_preview() {
    for (mode, opens) in [
        (EditorViewMode::SourceEditable, false),
        (EditorViewMode::SourceReadOnly, false),
        (EditorViewMode::MarkdownRendered, true),
    ] {
        let mut memory = None;
        EditorViewModeMemory::set(&mut memory, "a.md".to_string(), mode);
        assert_eq!(open_md_as_preview(true, "a.md", Some("md"), &memory), opens);
        assert!(open_md_as_preview(true, "b.md", Some("md"), &memory));
    }
}
