use fracta::block::{Alignment, Block, Inline, ListItem, TableRow};
use fracta::text::{extract_text, inlines_to_text};

#[test]
fn test_extract_simple_text() {
    let blocks = vec![
        Block::Heading { level: 1, content: vec![Inline::Text { value: "Title".into() }] },
        Block::Paragraph { content: vec![Inline::Text { value: "Hello world".into() }] },
    ];
    assert_eq!(extract_text(&blocks), "Title\nHello world");
}

#[test]
fn test_extract_strips_formatting() {
    let blocks = vec![Block::Paragraph {
        content: vec![
            Inline::Text { value: "Normal ".into() },
            Inline::Strong { children: vec![Inline::Text { value: "bold".into() }] },
            Inline::Text { value: " and ".into() },
            Inline::Code { value: "code".into() },
        ],
    }];
    assert_eq!(extract_text(&blocks), "Normal bold and code");
}

#[test]
fn test_extract_code_block() {
    let blocks = vec![Block::CodeBlock { language: Some("rust".into()), code: "fn main() {}\n".into() }];
    assert_eq!(extract_text(&blocks), "fn main() {}");
}

#[test]
fn test_inlines_to_text() {
    let inlines = vec![
        Inline::Text { value: "Click ".into() },
        Inline::Link {
            url: "https://example.com".into(),
            title: None,
            children: vec![Inline::Text { value: "here".into() }],
        },
    ];
    assert_eq!(inlines_to_text(&inlines), "Click here");
}

#[test]
fn breaks_images_and_html() {
    let inlines = vec![
        Inline::Text { value: "a".into() },
        Inline::SoftBreak,
        Inline::Emphasis { children: vec![Inline::Text { value: "b".into() }] },
        Inline::HardBreak,
        Inline::Image { url: "x.png".into(), title: None, alt: "pic".into() },
        Inline::Html { value: "<br>".into() },
        Inline::Strikethrough { children: vec![Inline::Text { value: "gone".into() }] },
    ];
    assert_eq!(inlines_to_text(&inlines), "a b\npicgone");
}

#[test]
fn tables_lists_quotes_and_breaks() {
    let cell = |s: &str| vec![Inline::Text { value: s.to_string() }];
    let blocks = vec![
        Block::Table {
            alignments: vec![Alignment::Left, Alignment::Unspecified],
            rows: vec![
                TableRow { header: true, cells: vec![cell("A"), cell("B")] },
                TableRow { header: false, cells: vec![cell("1"), cell("2")] },
            ],
        },
        Block::ThematicBreak,
        Block::HtmlBlock { html: "<div></div>".into() },
        Block::BlockQuote {
            children: vec![Block::Paragraph { content: cell("quoted") }],
        },
        Block::List {
            ordered: false,
            start: None,
            items: vec![
                ListItem { checked: Some(true), children: vec![Block::Paragraph { content: cell("done") }] },
                ListItem { checked: None, children: vec![Block::Paragraph { content: cell("plain") }] },
            ],
        },
        Block::CodeBlock { language: None, code: "x = 1".into() },
        Block::Paragraph { content: cell("  ") },
    ];
    assert_eq!(extract_text(&blocks), "A B\n1 2\nquoted\ndone\nplain\nx = 1");
}

#[test]
fn empty_blocks_give_empty_text() {
    let blocks: Vec<Block> = Vec::new();
    assert_eq!(extract_text(&blocks), "");
}
