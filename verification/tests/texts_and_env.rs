use editor_session::env::Env;
use editor_session::text::{
    chars_of, decimal_text, ellipsize, eq_ignore_ascii_case, first_line_trimmed, hex_text,
    is_white_space, replace_char, text_of, to_ascii_lowercase,
};

#[test]
fn white_space_agrees_with_std() {
    for u in 0..=0x10ffffu32 {
        if let Some(c) = char::from_u32(u) {
            assert_eq!(is_white_space(c), c.is_whitespace(), "{:x}", u);
        }
    }
}

#[test]
fn first_lines_agree_with_std() {
    for s in ["", "\n", "a", "a\n", "a\r\nb", "\r\n", "a\r", " a\u{85}\nb", "\u{a0}x y\t"] {
        assert_eq!(first_line_trimmed(s), s.lines().next().unwrap_or("").trim());
    }
}

#[test]
fn ascii_case_is_ignored() {
    for s in ["", "Az", "ÄB", "[@`{", "md"] {
        assert_eq!(to_ascii_lowercase(s), s.to_ascii_lowercase());
    }
    assert!(eq_ignore_ascii_case("/s", "/S"));
    assert!(!eq_ignore_ascii_case("/s", "/C"));
    assert!(!eq_ignore_ascii_case("ä", "Ä"));
}

#[test]
fn characters_are_replaced() {
    assert_eq!(replace_char("a'b'", '\'', "''"), "a''b''");
    assert_eq!(replace_char("", 'x', "y"), "");
    assert_eq!(replace_char("xx", 'x', ""), "");
}

#[test]
fn texts_are_cut_by_characters() {
    let chars = chars_of("añb");
    assert_eq!(chars, vec!['a', 'ñ', 'b']);
    assert_eq!(text_of(&chars, 1, 3), "ñb");
    assert_eq!(ellipsize("añb", 2), "añ…");
    assert_eq!(ellipsize("añb", 3), "añb");
}

#[test]
fn numbers_are_written_in_digits() {
    for n in [0usize, 9, 10, 99, 100, 12345, usize::MAX] {
        assert_eq!(decimal_text(n), n.to_string());
    }
    assert_eq!(hex_text(&vec![0x00, 0x0f, 0xa9, 0xff], 4), "000fa9ff");
    assert_eq!(hex_text(&vec![0x12, 0x34], 1), "12");
}

#[test]
fn variables_have_one_value() {
    let mut env = Env::new();
    assert_eq!(env.get("A"), None);
    env.insert("A".to_string(), "1".to_string());
    env.insert("B".to_string(), "2".to_string());
    env.insert("A".to_string(), "3".to_string());
    env.insert_if_absent("B".to_string(), "4".to_string());
    env.insert_if_absent("C".to_string(), "5".to_string());
    assert!(env.contains_key("C"));
    assert!(!env.contains_key("D"));
    let mut pairs = env.into_pairs();
    pairs.sort();
    assert_eq!(
        pairs,
        vec![
            ("A".to_string(), "3".to_string()),
            ("B".to_string(), "2".to_string()),
            ("C".to_string(), "5".to_string())
        ]
    );
}

#[test]
fn extending_prefers_the_newcomer() {
    let one = Env::from_pairs(&vec![
        ("A".to_string(), "1".to_string()),
        ("A".to_string(), "2".to_string()),
        ("B".to_string(), "3".to_string()),
    ]);
    assert_eq!(one.get("A"), Some("2".to_string()));
    let mut two = Env::from_pairs(&vec![
        ("A".to_string(), "4".to_string()),
        ("C".to_string(), "5".to_string()),
    ]);
    two.extend(&one);
    assert_eq!(two.get("A"), Some("2".to_string()));
    assert_eq!(two.get("B"), Some("3".to_string()));
    assert_eq!(two.get("C"), Some("5".to_string()));
}
