use fracta::block::{Block, Inline};
use fracta::document::Document;
use fracta::front_matter::FrontMatter;

fn h(level: u8, s: &str) -> Block {
    Block::Heading { level, content: vec![Inline::Text { value: s.to_string() }] }
}

#[test]
fn front_matter_title_wins_over_heading() {
    let fm = FrontMatter::parse("---\ntitle: From FM\n---\n");
    let doc = Document::new(fm, vec![h(1, "From Heading")]);
    assert_eq!(doc.title(), Some("From FM".to_string()));
}

#[test]
fn first_level_one_heading_gives_title() {
    let doc = Document::new(None, vec![h(2, "Sub"), h(1, "Main"), h(1, "Second")]);
    assert_eq!(doc.title(), Some("Main".to_string()));
}

#[test]
fn no_title_without_either() {
    let fm = FrontMatter::parse("---\ndate: 2025-01-01\n---\n");
    let doc = Document::new(fm, vec![h(2, "Only sub")]);
    assert_eq!(doc.title(), None);
}

#[test]
fn document_accessors() {
    let fm = FrontMatter::parse("---\ntitle: T\ntags: [rust, ffi]\ncount: 3\ndraft: false\n---\n");
    let doc = Document::new(fm, vec![h(1, "Hello World"), Block::Paragraph { content: vec![Inline::Text { value: "body".into() }] }]);
    assert!(doc.has_front_matter());
    assert_eq!(doc.front_matter_string("title"), Some("T".to_string()));
    assert_eq!(doc.front_matter_string_list("tags"), Some(vec!["rust".to_string(), "ffi".to_string()]));
    assert_eq!(doc.front_matter_int("count"), Some(3));
    assert_eq!(doc.front_matter_bool("draft"), Some(false));
    assert_eq!(doc.block_count(), 2);
    assert_eq!(doc.plain_text(), "Hello World\nbody");
}
