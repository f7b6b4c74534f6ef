use fracta::block::{Alignment, Block, Inline, ListItem, TableRow};
use fracta::markdown::{ast_to_blocks, collect_plain_text, document_from_tree, info_language, node_to_block, node_to_inline, MdNode, NodeKind};

fn leaf(kind: NodeKind) -> MdNode {
    MdNode { kind, children: Vec::new() }
}

fn node(kind: NodeKind, children: Vec<MdNode>) -> MdNode {
    MdNode { kind, children }
}

fn text(s: &str) -> MdNode {
    leaf(NodeKind::Text { value: s.to_string() })
}

#[test]
fn code_language_is_the_first_word() {
    assert_eq!(info_language("rust ignore"), Some("rust".to_string()));
    assert_eq!(info_language("  python  "), Some("python".to_string()));
    assert_eq!(info_language(""), None);
    assert_eq!(info_language("   "), Some("   ".to_string()));
}

#[test]
fn code_block_and_heading() {
    let cb = leaf(NodeKind::CodeBlock { info: "rust".to_string(), literal: "fn main() {}\n".to_string() });
    assert_eq!(
        node_to_block(&cb),
        Some(Block::CodeBlock { language: Some("rust".to_string()), code: "fn main() {}\n".to_string() })
    );
    let h = node(NodeKind::Heading { level: 2 }, vec![text("Title"), leaf(NodeKind::Other)]);
    assert_eq!(node_to_block(&h), Some(Block::Heading { level: 2, content: vec![Inline::Text { value: "Title".into() }] }));
    assert_eq!(node_to_block(&leaf(NodeKind::Other)), None);
    assert_eq!(node_to_block(&text("x")), None);
}

#[test]
fn links_images_and_breaks() {
    let link = node(NodeKind::Link { url: "https://example.com".into(), title: "".into() }, vec![text("here")]);
    assert_eq!(
        node_to_inline(&link),
        Some(Inline::Link { url: "https://example.com".into(), title: None, children: vec![Inline::Text { value: "here".into() }] })
    );
    let img = node(
        NodeKind::Image { url: "a.png".into(), title: "T".into() },
        vec![text("a "), node(NodeKind::Emph, vec![text("b")]), leaf(NodeKind::SoftBreak), leaf(NodeKind::Code { literal: "c".into() })],
    );
    assert_eq!(
        node_to_inline(&img),
        Some(Inline::Image { url: "a.png".into(), title: Some("T".into()), alt: "a b c".into() })
    );
    assert_eq!(node_to_inline(&leaf(NodeKind::LineBreak)), Some(Inline::HardBreak));
    assert_eq!(collect_plain_text(&img), "a b c");
}

#[test]
fn task_lists() {
    let para = |s: &str| node(NodeKind::Paragraph, vec![text(s)]);
    let list = node(
        NodeKind::List { ordered: false, start: 1 },
        vec![
            node(NodeKind::TaskItem { symbol: Some('x') }, vec![para("Done")]),
            node(NodeKind::TaskItem { symbol: None }, vec![para("Todo")]),
            node(NodeKind::Item, vec![para("Plain")]),
        ],
    );
    let p = |s: &str| vec![Block::Paragraph { content: vec![Inline::Text { value: s.into() }] }];
    assert_eq!(
        node_to_block(&list),
        Some(Block::List {
            ordered: false,
            start: None,
            items: vec![
                ListItem { checked: Some(true), children: p("Done") },
                ListItem { checked: Some(false), children: p("Todo") },
                ListItem { checked: None, children: p("Plain") },
            ],
        })
    );
    let ordered = node(NodeKind::List { ordered: true, start: 3 }, vec![]);
    assert_eq!(node_to_block(&ordered), Some(Block::List { ordered: true, start: Some(3), items: vec![] }));
}

#[test]
fn tables_keep_alignments_and_header() {
    let cell = |s: &str| node(NodeKind::TableCell, vec![text(s)]);
    let table = node(
        NodeKind::Table { alignments: vec![Alignment::Left, Alignment::Right] },
        vec![
            node(NodeKind::TableRow { header: true }, vec![cell("A"), cell("B")]),
            node(NodeKind::TableRow { header: false }, vec![cell("1"), cell("2")]),
        ],
    );
    let c = |s: &str| vec![Inline::Text { value: s.into() }];
    assert_eq!(
        node_to_block(&table),
        Some(Block::Table {
            alignments: vec![Alignment::Left, Alignment::Right],
            rows: vec![
                TableRow { header: true, cells: vec![c("A"), c("B")] },
                TableRow { header: false, cells: vec![c("1"), c("2")] },
            ],
        })
    );
}

#[test]
fn document_from_a_tree() {
    let root = node(
        NodeKind::Document,
        vec![
            leaf(NodeKind::FrontMatter { raw: "---\ntitle: Test Document\ntags: [rust, ffi]\n---\n".into() }),
            node(NodeKind::Heading { level: 1 }, vec![text("Hello World")]),
            node(NodeKind::BlockQuote, vec![node(NodeKind::Paragraph, vec![text("quoted")])]),
            leaf(NodeKind::ThematicBreak),
            leaf(NodeKind::HtmlBlock { literal: "<div/>".into() }),
        ],
    );
    let doc = document_from_tree(&root);
    assert_eq!(doc.title(), Some("Test Document".to_string()));
    assert_eq!(doc.front_matter_string_list("tags"), Some(vec!["rust".to_string(), "ffi".to_string()]));
    assert_eq!(doc.block_count(), 4);
    assert_eq!(doc.plain_text(), "Hello World\nquoted");
    assert_eq!(ast_to_blocks(&root).len(), 4);
}
