use spectrum_card::input::{
    classify_input, classify_submitted, find_char, is_whitespace, number_cell, range_cell,
    text_equals, trim_text, InputShape, SubmittedCell,
};

#[test]
fn whitespace_agrees_with_std_for_every_char() {
    for code in 0u32..=0x10FFFF {
        if let Some(c) = char::from_u32(code) {
            assert_eq!(is_whitespace(c), c.is_whitespace(), "at U+{:04X}", code);
        }
    }
}

#[test]
fn trim_agrees_with_std() {
    let samples = [
        "", "   ", "abc", "  abc", "abc  ", " \t a b \n", "\u{3000}x\u{2028}", "\u{a0}\u{85}",
        "[0.1 ~ 0.2]", " é ", "\u{200b}x\u{200b}",
    ];
    for s in samples {
        assert_eq!(trim_text(s), s.trim(), "for {:?}", s);
    }
}

#[test]
fn text_equality() {
    assert!(text_equals("Unknown", "Unknown"));
    assert!(!text_equals("Unknown", "unknown"));
    assert!(!text_equals("M", "MM"));
    assert!(text_equals("", ""));
}

#[test]
fn find_first_char() {
    assert_eq!(find_char("a~b~c", '~'), Some(1));
    assert_eq!(find_char("abc", '~'), None);
    assert_eq!(find_char("é~", '~'), Some(1));
}

#[test]
fn blank_input_is_empty() {
    assert!(matches!(classify_input(""), InputShape::Empty));
    assert!(matches!(classify_input("  \t "), InputShape::Empty));
}

#[test]
fn bracketed_input_is_a_range() {
    match classify_input("  [ 0.2 ~0.7 ]  ") {
        InputShape::Range(from, to) => {
            assert_eq!(from, "0.2");
            assert_eq!(to, "0.7");
        }
        other => panic!("unexpected {:?}", other),
    }
    match classify_input("[a~b~c]") {
        InputShape::Range(from, to) => {
            assert_eq!(from, "a");
            assert_eq!(to, "b~c");
        }
        other => panic!("unexpected {:?}", other),
    }
    match classify_input("[~]") {
        InputShape::Range(from, to) => {
            assert_eq!(from, "");
            assert_eq!(to, "");
        }
        other => panic!("unexpected {:?}", other),
    }
}

#[test]
fn brackets_without_tilde() {
    assert!(matches!(classify_input("[0.5]"), InputShape::NoSeparator));
    assert!(matches!(classify_input("[]"), InputShape::NoSeparator));
}

#[test]
fn other_input_is_single() {
    match classify_input(" 0.5 ") {
        InputShape::Single(text) => assert_eq!(text, "0.5"),
        other => panic!("unexpected {:?}", other),
    }
    match classify_input("[0.5") {
        InputShape::Single(text) => assert_eq!(text, "[0.5"),
        other => panic!("unexpected {:?}", other),
    }
    match classify_input("[") {
        InputShape::Single(text) => assert_eq!(text, "["),
        other => panic!("unexpected {:?}", other),
    }
}

#[test]
fn submitted_marks() {
    match classify_submitted("Unknown") {
        SubmittedCell::Mark(m) => assert_eq!(m, "\u{1D4E4}"),
        other => panic!("unexpected {:?}", other),
    }
    match classify_submitted("Quadrants") {
        SubmittedCell::Mark(m) => assert_eq!(m, "\u{1D4DC}"),
        other => panic!("unexpected {:?}", other),
    }
    match classify_submitted("M") {
        SubmittedCell::Mark(m) => assert_eq!(m, "\u{1D4DC}"),
        other => panic!("unexpected {:?}", other),
    }
}

#[test]
fn submitted_range_and_other() {
    match classify_submitted("[0.1 ~ 0.9]") {
        SubmittedCell::Range(from, to) => {
            assert_eq!(from, "0.1");
            assert_eq!(to, "0.9");
        }
        other => panic!("unexpected {:?}", other),
    }
    assert!(matches!(classify_submitted("[0.1]"), SubmittedCell::NoSeparator));
    match classify_submitted(" Unknown") {
        SubmittedCell::Other(text) => assert_eq!(text, " Unknown"),
        other => panic!("unexpected {:?}", other),
    }
    match classify_submitted("0.25") {
        SubmittedCell::Other(text) => assert_eq!(text, "0.25"),
        other => panic!("unexpected {:?}", other),
    }
}

#[test]
fn range_and_number_cells() {
    assert_eq!(range_cell("0.1", "0.9"), "0.1 ~ 0.9");
    assert_eq!(number_cell("0", true), "\u{2205}");
    assert_eq!(number_cell("0.4", false), "0.4");
}
