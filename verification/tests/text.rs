use herdr_labels::table::Table;
use herdr_labels::text::{
    add_ascending, decimal_text, is_blank, is_whitespace, join, list_contains, parse_number,
    text_eq, text_precedes,
};

#[test]
fn white_space_is_that_of_the_standard_library() {
    for code in 0..=0x10ffff {
        if let Some(character) = char::from_u32(code) {
            assert_eq!(is_whitespace(character), character.is_whitespace());
        }
    }
    assert!(is_blank(" \t\u{3000}"));
    assert!(is_blank(""));
    assert!(!is_blank(" x "));
}

#[test]
fn numerals_are_read_back() {
    for number in [0, 7, 10, 4_294_967_295] {
        let numeral = decimal_text(number);
        assert_eq!(numeral, number.to_string());
        assert_eq!(parse_number(&numeral).map(u64::from), Some(number));
    }
    assert_eq!(decimal_text(u64::MAX), "18446744073709551615");
    for text in ["", "+", "-1", "1 ", "4294967296", "\u{0663}", "++1"] {
        assert_eq!(parse_number(text), text.parse().ok());
    }
    assert_eq!(parse_number("+0012"), Some(12));
}

#[test]
fn ascending_lists_hold_each_text_once() {
    let mut list: Vec<String> = Vec::new();
    for text in ["unchanged", "renamed", "", "renamed", "\u{732b}", "rename"] {
        add_ascending(&mut list, text.into());
    }
    let mut sorted = list.clone();
    sorted.sort_unstable();
    sorted.dedup();
    assert_eq!(list, sorted);
    assert_eq!(list.len(), 5);
    assert_eq!(join(&list, ","), list.join(","));
    assert_eq!(join(&Vec::new(), ","), "");
    assert!(text_precedes("rename", "renamed"));
    assert!(!text_precedes("renamed", "renamed"));
    assert!(text_precedes("\u{ffff}", "\u{10000}"));
}

#[test]
fn texts_are_compared_by_their_characters() {
    assert!(text_eq("caf\u{e9}", "caf\u{e9}"));
    assert!(!text_eq("cafe\u{301}", "caf\u{e9}"));
    assert!(list_contains(&vec!["a".into(), "b".into()], "b"));
    assert!(!list_contains(&vec!["a".into()], "b"));
}

#[test]
fn tables_hold_one_value_for_each_key() {
    let mut table: Table<String> = Table::new();
    assert_eq!(table.insert("a".into(), "1".into()), None);
    assert_eq!(table.insert("a".into(), "2".into()), Some("1".to_owned()));
    table.insert("b".into(), "3".into());
    table.insert("c".into(), "2".into());
    assert_eq!(table.get("a").map(String::as_str), Some("2"));
    assert!(table.contains_key("b"));
    assert_eq!(table.remove("b"), Some("3".to_owned()));
    assert_eq!(table.remove("b"), None);
    assert_eq!(table.clone(), table);
    table.retain_values(&vec!["2".into()]);
    assert_eq!(table.entries().len(), 2);
    table.retain_keys(&vec!["c".into(), "d".into()]);
    assert_eq!(table.entries(), &vec![("c".to_owned(), "2".to_owned())]);
    let rebuilt = Table::from_entries(vec![
        ("x".to_owned(), "1".to_owned()),
        ("x".to_owned(), "2".to_owned()),
    ]);
    assert_eq!(rebuilt.get("x").map(String::as_str), Some("2"));
}
