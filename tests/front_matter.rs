use fracta::front_matter::{strip_delimiters, FrontMatter};

#[test]
fn test_parse_basic_front_matter() {
    let input = "---\ntitle: Hello World\ndate: 2025-01-01\n---\n";
    let fm = FrontMatter::parse(input).unwrap();
    assert_eq!(fm.get_str("title").as_deref(), Some("Hello World"));
    assert_eq!(fm.get_str("date").as_deref(), Some("2025-01-01"));
}

#[test]
fn test_parse_with_tags() {
    let input = "---\ntitle: Test\ntags: [rust, fracta]\n---\n";
    let fm = FrontMatter::parse(input).unwrap();
    let tags = fm.get_string_list("tags").unwrap();
    assert_eq!(tags, vec!["rust", "fracta"]);
}

#[test]
fn test_parse_numeric_fields() {
    let input = "---\nmood: 7\nscore: 4.56\n---\n";
    let fm = FrontMatter::parse(input).unwrap();
    assert_eq!(fm.get_i64("mood"), Some(7));
    assert_eq!(fm.get_i64("score"), None);
}

#[test]
fn test_parse_boolean_field() {
    let input = "---\ndraft: true\n---\n";
    let fm = FrontMatter::parse(input).unwrap();
    assert_eq!(fm.get_bool("draft"), Some(true));
}

#[test]
fn test_empty_front_matter() {
    let input = "---\n---\n";
    assert!(FrontMatter::parse(input).is_none());
}

#[test]
fn test_non_mapping_rejected() {
    let input = "---\njust a string\n---\n";
    assert!(FrontMatter::parse(input).is_none());
}

#[test]
fn test_missing_field_returns_none() {
    let input = "---\ntitle: Test\n---\n";
    let fm = FrontMatter::parse(input).unwrap();
    assert_eq!(fm.get_str("nonexistent"), None);
}

#[test]
fn sequence_front_matter_rejected() {
    assert!(FrontMatter::parse("---\n- a\n- b\n---\n").is_none());
}

#[test]
fn delimiters_are_stripped_and_text_trimmed() {
    assert_eq!(strip_delimiters("---\r\ntitle: A\r\n  ---  \n\nx: 1\n---\n"), "title: A\n\nx: 1");
    assert_eq!(strip_delimiters("---\n---\n"), "");
}

#[test]
fn a_mixed_list_is_not_a_string_list() {
    let fm = FrontMatter::parse("---\ntags: [a, 3]\nn: x\n---").unwrap();
    assert_eq!(fm.get_string_list("tags"), None);
    assert_eq!(fm.get_i64("n"), None);
    assert_eq!(fm.get_bool("n"), None);
}
