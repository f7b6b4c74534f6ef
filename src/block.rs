//! The parsed Markdown tree: block-level elements holding inline content or
//! nested blocks.

use vstd::prelude::*;

verus! {

/// A block-level element of a Markdown document.
#[derive(Debug, PartialEq)]
pub enum Block {
    /// Heading (levels 1 to 6).
    Heading { level: u8, content: Vec<Inline> },
    /// A paragraph of inline content.
    Paragraph { content: Vec<Inline> },
    /// Fenced or indented code block.
    CodeBlock { language: Option<String>, code: String },
    /// Block quote holding nested blocks.
    BlockQuote { children: Vec<Block> },
    /// Ordered or unordered list.
    List { ordered: bool, start: Option<usize>, items: Vec<ListItem> },
    /// Table.
    Table { alignments: Vec<Alignment>, rows: Vec<TableRow> },
    /// Horizontal rule.
    ThematicBreak,
    /// Raw HTML block, kept as it is.
    HtmlBlock { html: String },
}

/// A list item, optionally a task item.
#[derive(Debug, PartialEq)]
pub struct ListItem {
    /// `None` for a regular item, `Some(true)` checked, `Some(false)` unchecked.
    pub checked: Option<bool>,
    /// Block content of the item.
    pub children: Vec<Block>,
}

/// A table row.
#[derive(Debug, PartialEq)]
pub struct TableRow {
    /// Whether this is the header row.
    pub header: bool,
    /// Cell contents.
    pub cells: Vec<Vec<Inline>>,
}

/// Table column alignment.
#[derive(Debug, Clone, Copy, PartialEq, Eq)]
pub enum Alignment {
    Left,
    Center,
    Right,
    /// No alignment given.
    Unspecified,
}

/// An inline element within a block.
#[derive(Debug, PartialEq)]
pub enum Inline {
    /// Plain text.
    Text { value: String },
    /// Inline code span.
    Code { value: String },
    /// Emphasis.
    Emphasis { children: Vec<Inline> },
    /// Strong emphasis.
    Strong { children: Vec<Inline> },
    /// Strikethrough.
    Strikethrough { children: Vec<Inline> },
    /// Hyperlink.
    Link { url: String, title: Option<String>, children: Vec<Inline> },
    /// Image, with its alt text already flattened.
    Image { url: String, title: Option<String>, alt: String },
    /// Soft line break, rendered as a space.
    SoftBreak,
    /// Hard line break.
    HardBreak,
    /// Raw inline HTML.
    Html { value: String },
}

} // verus!
