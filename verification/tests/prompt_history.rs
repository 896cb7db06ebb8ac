use editor_session::prompt_history::{
    build_prompt_history_menu, full_and_preview_from_content, AgentThreadEntry, ContentBlock,
    PromptHistory, PromptMenuItem, ScrollButton, ScrollTarget, UserMessage,
};

fn markdown(source: &str) -> ContentBlock {
    ContentBlock::Markdown {
        source: source.to_string(),
    }
}

fn message(id: Option<&str>, content: ContentBlock) -> AgentThreadEntry {
    AgentThreadEntry::UserMessage(UserMessage {
        id: id.map(|id| id.to_string()),
        content,
    })
}

fn preview(content: ContentBlock, max: usize) -> (String, String) {
    full_and_preview_from_content(&content, max)
}

fn pair(full_text: &str, preview: &str) -> (String, String) {
    (full_text.to_string(), preview.to_string())
}

fn thread() -> Vec<AgentThreadEntry> {
    vec![
        message(Some("m0"), markdown("first")),
        AgentThreadEntry::Other,
        message(None, markdown("second")),
        AgentThreadEntry::Other,
        message(Some("m4"), markdown("third")),
    ]
}

fn indices(history: &PromptHistory) -> Vec<usize> {
    history.entries().iter().map(|e| e.entry_index).collect()
}

fn previews(history: &PromptHistory) -> Vec<String> {
    history.entries().iter().map(|e| e.preview.clone()).collect()
}

#[test]
fn preview_is_the_trimmed_first_line() {
    assert_eq!(preview(markdown("  hello \r\nworld"), 10), pair("  hello \r\nworld", "hello"));
    assert_eq!(preview(markdown("\nworld"), 10), pair("\nworld", ""));
    assert_eq!(preview(markdown("a\rb\nc"), 10), pair("a\rb\nc", "a\rb"));
    assert_eq!(preview(markdown("\u{2003}x\u{3000}"), 10), pair("\u{2003}x\u{3000}", "x"));
    assert_eq!(preview(markdown("only\r"), 10), pair("only\r", "only"));
    assert_eq!(preview(markdown("   "), 10), pair("   ", ""));
}

#[test]
fn preview_is_cut_by_characters() {
    assert_eq!(preview(markdown("abcdef"), 3), pair("abcdef", "abc…"));
    assert_eq!(preview(markdown("abc"), 3), pair("abc", "abc"));
    assert_eq!(preview(markdown("日本語テキスト"), 2), pair("日本語テキスト", "日本…"));
    assert_eq!(preview(markdown("abc"), 0), pair("abc", "…"));
    assert_eq!(preview(markdown(""), 0), pair("", ""));
}

#[test]
fn other_content_has_placeholders() {
    assert_eq!(preview(ContentBlock::Empty, 10), pair("", ""));
    assert_eq!(preview(ContentBlock::Image, 10), pair("[image]", "[image]"));
    assert_eq!(preview(ContentBlock::Image, 3), pair("[image]", "[im…"));
    let link = ContentBlock::ResourceLink {
        uri: "file:///x".to_string(),
    };
    assert_eq!(preview(link, 40), pair("[file: file:///x]", "[file: file:///x]"));
}

#[test]
fn bootstrap_captures_the_user_messages() {
    let mut history = PromptHistory::default();
    history.bootstrap_from_entries(&thread(), 80);
    assert_eq!(indices(&history), vec![0, 2, 4]);
    assert_eq!(previews(&history), vec!["first", "second", "third"]);
    assert_eq!(history.entries()[0].id, Some("m0".to_string()));
    assert_eq!(history.entries()[1].id, None);
    assert_eq!(history.entries()[2].full_text, "third");

    history.bootstrap_from_entries(&[AgentThreadEntry::Other], 80);
    assert!(history.entries().is_empty());
}

#[test]
fn capture_looks_at_the_last_entry() {
    let mut history = PromptHistory::new();
    let thread = thread();
    for n in 0..=thread.len() {
        history.capture_if_user_message(&thread[..n], 80);
    }
    let mut expected = PromptHistory::new();
    expected.bootstrap_from_entries(&thread, 80);
    assert_eq!(history.entries(), expected.entries());
}

#[test]
fn reset_drops_everything() {
    let mut history = PromptHistory::new();
    history.bootstrap_from_entries(&thread(), 80);
    history.reset();
    assert!(history.entries().is_empty());
}

#[test]
fn removal_follows_the_thread() {
    for start in 0..=5 {
        for end in start..=5 {
            let mut history = PromptHistory::new();
            history.bootstrap_from_entries(&thread(), 80);
            history.handle_removal(&(start..end));

            let mut left = thread();
            left.drain(start..end);
            let mut expected = PromptHistory::new();
            expected.bootstrap_from_entries(&left, 80);
            assert_eq!(history.entries(), expected.entries());
        }
    }
}

#[test]
fn removal_shifts_what_comes_behind() {
    let mut history = PromptHistory::new();
    history.bootstrap_from_entries(&thread(), 80);
    history.handle_removal(&(1..3));
    assert_eq!(indices(&history), vec![0, 2]);
    assert_eq!(previews(&history), vec!["first", "third"]);
}

#[test]
fn empty_and_reversed_ranges_remove_nothing() {
    let mut history = PromptHistory::new();
    history.bootstrap_from_entries(&thread(), 80);
    history.handle_removal(&(2..2));
    assert_eq!(indices(&history), vec![0, 2, 4]);
    let reversed = std::ops::Range { start: 4, end: 1 };
    history.handle_removal(&reversed);
    assert_eq!(indices(&history), vec![0, 2, 4]);
}

#[test]
fn menu_without_prompts_is_a_label() {
    assert_eq!(
        build_prompt_history_menu(&[], true),
        vec![PromptMenuItem::Label {
            text: "No prompts in this session yet".to_string()
        }]
    );
}

#[test]
fn menu_lists_the_prompts_oldest_first() {
    let mut history = PromptHistory::new();
    history.bootstrap_from_entries(&thread(), 3);
    let menu = build_prompt_history_menu(history.entries(), true);
    assert_eq!(menu.len(), 5);
    assert_eq!(
        menu[0],
        PromptMenuItem::ScrollHeader {
            title: "Prompt History (3)".to_string(),
            first: ScrollButton {
                id: "prompt-history-scroll-top".to_string(),
                tooltip: "Scroll chat to top".to_string(),
                target: ScrollTarget::Top
            },
            second: ScrollButton {
                id: "prompt-history-scroll-bottom".to_string(),
                tooltip: "Scroll chat to bottom".to_string(),
                target: ScrollTarget::Bottom
            }
        }
    );
    assert_eq!(menu[1], PromptMenuItem::Separator);
    assert_eq!(
        menu[3],
        PromptMenuItem::Row {
            id: "prompt-history-row-2".to_string(),
            preview: "sec…".to_string(),
            tooltip: "second".to_string(),
            scroll_to: Some(2)
        }
    );
}

#[test]
fn menu_without_a_list_does_not_scroll() {
    let mut thread: Vec<AgentThreadEntry> = Vec::new();
    for _ in 0..12 {
        thread.push(message(None, markdown("x")));
    }
    let mut history = PromptHistory::new();
    history.bootstrap_from_entries(&thread, 3);
    let menu = build_prompt_history_menu(history.entries(), false);
    assert_eq!(
        menu[0],
        PromptMenuItem::Header {
            title: "Prompt History (12)".to_string()
        }
    );
    assert_eq!(
        menu[13],
        PromptMenuItem::Row {
            id: "prompt-history-row-11".to_string(),
            preview: "x".to_string(),
            tooltip: "x".to_string(),
            scroll_to: None
        }
    );
}
