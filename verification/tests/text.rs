use cursor::text::{
    has_leading_newline, is_blank, is_whitespace, trim_end,
    trim_to_end_of_line_unless_leading_newline,
};

#[test]
fn white_space_is_that_of_std() {
    for c in '\0'..=char::MAX {
        assert_eq!(is_whitespace(c), c.is_whitespace(), "{:?}", c);
    }
}

#[test]
fn leading_newline_is_found_behind_white_space() {
    assert!(has_leading_newline("\nlet x;"));
    assert!(has_leading_newline(" \t\r\nlet x;"));
    assert!(has_leading_newline("\u{3000}\n"));
    assert!(!has_leading_newline("let x;\n"));
    assert!(!has_leading_newline("   "));
    assert!(!has_leading_newline(""));
}

#[test]
fn first_line_is_kept() {
    assert_eq!(trim_to_end_of_line_unless_leading_newline("one\ntwo\nthree"), "one");
    assert_eq!(trim_to_end_of_line_unless_leading_newline("one"), "one");
    assert_eq!(trim_to_end_of_line_unless_leading_newline(""), "");
    assert_eq!(trim_to_end_of_line_unless_leading_newline("größe\r\nx"), "größe\r");
}

#[test]
fn text_that_opens_with_a_newline_is_kept_whole() {
    assert_eq!(trim_to_end_of_line_unless_leading_newline("\none\ntwo"), "\none\ntwo");
    assert_eq!(trim_to_end_of_line_unless_leading_newline("  \n  one\n"), "  \n  one\n");
}

#[test]
fn trimming_to_a_line_twice_changes_nothing() {
    for text in ["a\nb", "\na\nb", "", " ", "a", " a \n b"] {
        let once = trim_to_end_of_line_unless_leading_newline(text);
        assert_eq!(trim_to_end_of_line_unless_leading_newline(once), once);
        assert!(text.starts_with(once));
    }
}

#[test]
fn white_space_at_the_end_goes() {
    assert_eq!(trim_end("let x; \t\n"), "let x;");
    assert_eq!(trim_end("  a b"), "  a b");
    assert_eq!(trim_end("ä\u{2003}\u{a0}"), "ä");
    assert_eq!(trim_end(" \n "), "");
    assert_eq!(trim_end(""), "");
    for text in ["a b ", "", "\u{85}x\u{85}", "x\u{200b} "] {
        assert_eq!(trim_end(text), text.trim_end());
    }
}

#[test]
fn blank_text() {
    assert!(is_blank(""));
    assert!(is_blank(" \n\t\u{2028}"));
    assert!(!is_blank(" . "));
    assert!(!is_blank("\u{200b}"));
}
