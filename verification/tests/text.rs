use csv_rag::text::{decimal_string, join, same_text, trim};

#[test]
fn decimal_string_writes_single_digits() {
    assert_eq!(decimal_string(0), "0");
    assert_eq!(decimal_string(7), "7");
    assert_eq!(decimal_string(9), "9");
}

#[test]
fn decimal_string_writes_longer_numbers() {
    assert_eq!(decimal_string(10), "10");
    assert_eq!(decimal_string(105), "105");
    assert_eq!(decimal_string(12345), "12345");
    assert_eq!(decimal_string(usize::MAX), usize::MAX.to_string());
}

#[test]
fn trim_removes_whitespace_at_both_ends() {
    assert_eq!(trim("  John Doe \t\n"), "John Doe");
    assert_eq!(trim("x"), "x");
    assert_eq!(trim("a  b"), "a  b");
}

#[test]
fn trim_leaves_nothing_of_blank_text() {
    assert_eq!(trim(""), "");
    assert_eq!(trim("   "), "");
    assert_eq!(trim("\t\r\n "), "");
}

#[test]
fn trim_knows_whitespace_beyond_ascii() {
    assert_eq!(trim("\u{a0}\u{3000}wert\u{2003}"), "wert");
    assert_eq!(trim("\u{3000}"), "");
    assert_eq!(trim(" é "), "é");
}

#[test]
fn trim_agrees_with_std() {
    let samples = ["", " ", "a", " a", "a ", " a b ", "\n\nübung\n", "\u{feff} x"];
    for sample in samples {
        assert_eq!(trim(sample), sample.trim());
    }
}

#[test]
fn join_puts_the_separator_between_neighbours() {
    let parts = vec!["a".to_string(), "b".to_string(), "c".to_string()];
    assert_eq!(join(&parts, ", "), "a, b, c");
    assert_eq!(join(&parts, ""), "abc");
}

#[test]
fn join_of_one_part_or_none_has_no_separator() {
    assert_eq!(join(&vec!["only".to_string()], ", "), "only");
    assert_eq!(join(&Vec::new(), ", "), "");
}

#[test]
fn same_text_compares_character_by_character() {
    assert!(same_text("csv", "csv"));
    assert!(same_text("", ""));
    assert!(!same_text("csv", "CSV"));
    assert!(!same_text("csv", "csvx"));
}
