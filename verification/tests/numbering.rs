use herdr_labels::numbering::{is_placeholder, numbered_label, strip_numeric_prefix};

#[test]
fn replaces_a_leading_numeric_prefix() {
    assert_eq!(numbered_label(2, "[3] setup"), "[2] setup");
    assert_eq!(numbered_label(2, "[003]\tsetup"), "[2] setup");
    assert_eq!(numbered_label(2, "[3]setup"), "[2] setup");
    assert_eq!(numbered_label(2, "[9] [3] setup"), "[2] setup");
}

#[test]
fn preserves_non_numeric_bracketed_text() {
    assert_eq!(numbered_label(1, "[dev] setup"), "[1] [dev] setup");
    assert_eq!(numbered_label(1, "[] setup"), "[1] [] setup");
    assert_eq!(numbered_label(1, "setup"), "[1] setup");
}

#[test]
fn recognizes_generated_placeholders() {
    assert!(is_placeholder(""));
    assert!(is_placeholder("42"));
    assert!(!is_placeholder("42 tests"));
}

#[test]
fn stripping_a_stripped_label_changes_nothing() {
    for label in ["[1] [2] work", "[x] [1]", "  plain", "[12", "[1]", "[1] "] {
        let base = strip_numeric_prefix(label);
        assert_eq!(strip_numeric_prefix(base), base);
    }
    assert_eq!(strip_numeric_prefix("[1] [2] work"), "work");
    assert_eq!(strip_numeric_prefix("[1]"), "");
    assert_eq!(strip_numeric_prefix("[12"), "[12");
    assert_eq!(strip_numeric_prefix("[\u{0663}] x"), "[\u{0663}] x");
}

#[test]
fn renumbering_keeps_the_base() {
    for label in ["work", "[7] work", "[dev] x", ""] {
        let once = numbered_label(3, label);
        assert_eq!(strip_numeric_prefix(&once), strip_numeric_prefix(label));
        assert_eq!(numbered_label(12, &once), numbered_label(12, label));
    }
    assert_eq!(numbered_label(12, ""), "[12]");
}
