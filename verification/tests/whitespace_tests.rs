use box_tree::whitespace::{
    begins_with_whitespace, collapse_text, ends_with_a_space, is_ascii_whitespace, push_collapsed,
    trim_leading_whitespace,
};

#[test]
fn ascii_whitespace_is_five_characters() {
    for c in [' ', '\t', '\n', '\x0C', '\r'] {
        assert!(is_ascii_whitespace(c), "{:?}", c);
    }
    for c in ['\x0B', 'a', '\u{A0}', '\u{3000}', '\u{2028}', '\0'] {
        assert!(!is_ascii_whitespace(c), "{:?}", c);
    }
}

#[test]
fn is_ascii_whitespace_agrees_with_std() {
    for code in 0u32..0x300 {
        let c = char::from_u32(code).unwrap();
        assert_eq!(is_ascii_whitespace(c), c.is_ascii_whitespace(), "{:?}", c);
    }
}

#[test]
fn runs_of_whitespace_become_one_space() {
    assert_eq!(collapse_text("a  b\t\n c", false), "a b c");
    assert_eq!(collapse_text("one\r\ntwo\x0Cthree", false), "one two three");
}

#[test]
fn trailing_whitespace_becomes_one_space() {
    assert_eq!(collapse_text("Hello  \n", false), "Hello ");
}

#[test]
fn leading_whitespace_is_dropped_unless_preserved() {
    assert_eq!(collapse_text("  Hello ", false), "Hello ");
    assert_eq!(collapse_text("  b", true), " b");
    assert_eq!(collapse_text("\n\t b  c", true), " b c");
}

#[test]
fn whitespace_alone_is_a_space_or_nothing() {
    assert_eq!(collapse_text(" \t\n", true), " ");
    assert_eq!(collapse_text(" \t\n", false), "");
    assert_eq!(collapse_text("", false), "");
}

#[test]
fn other_characters_are_kept_as_they_are() {
    assert_eq!(collapse_text("é \u{A0} 日本語\u{3000}x", false), "é \u{A0} 日本語\u{3000}x");
    assert_eq!(collapse_text("a\x0Bb", false), "a\x0Bb");
}

#[test]
fn collapsing_fully_collapsed_text_changes_nothing() {
    for text in ["", "a", "a b", "Hello world !", "x y z w"] {
        assert_eq!(collapse_text(text, false), text);
    }
}

#[test]
fn collapsing_twice_is_collapsing_once() {
    for text in ["  a  b ", "\ta\n\nb", "   ", "a \t b \r\n c  "] {
        let once = collapse_text(text, false);
        assert_eq!(collapse_text(&once, false), once);
    }
}

#[test]
fn push_collapsed_appends() {
    let mut output = String::from("x ");
    push_collapsed(&mut output, "  a \n b");
    assert_eq!(output, "x a b");
    push_collapsed(&mut output, "");
    assert_eq!(output, "x a b");
}

#[test]
fn trimming_leading_whitespace() {
    assert_eq!(trim_leading_whitespace(" \t\r\n\x0Cabc "), "abc ");
    assert_eq!(trim_leading_whitespace("abc"), "abc");
    assert_eq!(trim_leading_whitespace("  "), "");
    assert_eq!(trim_leading_whitespace("\u{A0} a"), "\u{A0} a");
    assert_eq!(trim_leading_whitespace(" é日"), "é日");
}

#[test]
fn first_and_last_character() {
    assert!(begins_with_whitespace(" a"));
    assert!(begins_with_whitespace("\na"));
    assert!(!begins_with_whitespace("a "));
    assert!(!begins_with_whitespace(""));
    assert!(ends_with_a_space("a "));
    assert!(!ends_with_a_space("a\n"));
    assert!(!ends_with_a_space("a"));
    assert!(!ends_with_a_space(""));
}
