//! Plain-text projection of the block model, used for full-text indexing.
//!
//! Formatting is stripped: emphasis, strong, strikethrough and links give only
//! their children's text, inline code its literal. Soft breaks become spaces,
//! hard breaks newlines. Table cells are joined by spaces, each row ends with
//! a newline. Thematic breaks and raw HTML give nothing.

use vstd::prelude::*;
use crate::block::{Block, Inline, ListItem, TableRow};
use crate::chars::{extend_chars, push_str_chars, string_of, trim_end, trim_end_len, prefix_chars};

verus! {

broadcast use vstd::seq::axiom_seq_subrange_decreases, vstd::seq::axiom_seq_index_decreases;

/// The text of one inline element.
pub open spec fn inline_text(i: Inline) -> Seq<char>
    decreases i, 0nat,
{
    match i {
        Inline::Text { value } => value@,
        Inline::Code { value } => value@,
        Inline::Emphasis { children } => inlines_text(children@),
        Inline::Strong { children } => inlines_text(children@),
        Inline::Strikethrough { children } => inlines_text(children@),
        Inline::Link { children, .. } => inlines_text(children@),
        Inline::Image { alt, .. } => alt@,
        Inline::SoftBreak => seq![' '],
        Inline::HardBreak => seq!['\n'],
        Inline::Html { .. } => seq![],
    }
}

/// The text of a sequence of inline elements, concatenated.
pub open spec fn inlines_text(s: Seq<Inline>) -> Seq<char>
    decreases s, s.len(),
{
    if s.len() == 0 {
        seq![]
    } else {
        inlines_text(s.subrange(0, s.len() - 1)) + inline_text(s[s.len() - 1])
    }
}

/// The text of table cells, separated by single spaces.
pub open spec fn cells_text(s: Seq<Vec<Inline>>) -> Seq<char>
    decreases s.len(),
{
    if s.len() == 0 {
        seq![]
    } else if s.len() == 1 {
        inlines_text(s[0]@)
    } else {
        cells_text(s.subrange(0, s.len() - 1)) + seq![' '] + inlines_text(s[s.len() - 1]@)
    }
}

/// The text of a code block: its code, with a newline added unless it ends with one.
pub open spec fn code_text(code: Seq<char>) -> Seq<char> {
    if code.len() > 0 && code.last() == '\n' {
        code
    } else {
        code + seq!['\n']
    }
}

/// The text of one block, before trailing whitespace is trimmed.
pub open spec fn block_text(b: Block) -> Seq<char>
    decreases b, 0nat,
{
    match b {
        Block::Heading { content, .. } => inlines_text(content@) + seq!['\n'],
        Block::Paragraph { content } => inlines_text(content@) + seq!['\n'],
        Block::CodeBlock { code, .. } => code_text(code@),
        Block::BlockQuote { children } => blocks_text(children@),
        Block::List { items, .. } => items_text(items@),
        Block::Table { rows, .. } => rows_text(rows@),
        Block::ThematicBreak => seq![],
        Block::HtmlBlock { .. } => seq![],
    }
}

/// The text of a sequence of blocks, concatenated.
pub open spec fn blocks_text(s: Seq<Block>) -> Seq<char>
    decreases s, s.len(),
{
    if s.len() == 0 {
        seq![]
    } else {
        blocks_text(s.subrange(0, s.len() - 1)) + block_text(s[s.len() - 1])
    }
}

/// The text of list items: the blocks of each item, concatenated.
pub open spec fn items_text(s: Seq<ListItem>) -> Seq<char>
    decreases s, s.len(),
{
    if s.len() == 0 {
        seq![]
    } else {
        items_text(s.subrange(0, s.len() - 1)) + blocks_text(s[s.len() - 1].children@)
    }
}

/// The text of table rows, each ended by a newline.
pub open spec fn rows_text(s: Seq<TableRow>) -> Seq<char>
    decreases s.len(),
{
    if s.len() == 0 {
        seq![]
    } else {
        rows_text(s.subrange(0, s.len() - 1)) + cells_text(s[s.len() - 1].cells@) + seq!['\n']
    }
}

/// The plain text of a block sequence: the blocks' text with trailing whitespace trimmed.
pub open spec fn plain_text_of(blocks: Seq<Block>) -> Seq<char> {
    trim_end(blocks_text(blocks))
}

/// Extracts the plain text of `blocks`, newline-separated, trailing whitespace trimmed.
pub fn extract_text(blocks: &Vec<Block>) -> (r: String)
    ensures
        r@ == plain_text_of(blocks@),
{
    let mut buf: Vec<char> = Vec::new();
    let mut i: usize = 0;
    while i < blocks.len()
        invariant
            i <= blocks.len(),
            buf@ == blocks_text(blocks@.subrange(0, i as int)),
        decreases blocks.len() - i,
    {
        extract_block_text(&blocks[i], &mut buf);
        i = i + 1;
        assert(blocks@.subrange(0, i as int).subrange(0, i - 1) =~= blocks@.subrange(0, i - 1));
    }
    assert(blocks@.subrange(0, blocks.len() as int) =~= blocks@);
    let n = trim_end_len(&buf);
    let trimmed = prefix_chars(&buf, n);
    string_of(&trimmed)
}

/// The text of `inlines`, concatenated.
pub fn inlines_to_text(inlines: &Vec<Inline>) -> (r: String)
    ensures
        r@ == inlines_text(inlines@),
{
    let mut buf: Vec<char> = Vec::new();
    extract_inline_text(inlines, &mut buf);
    string_of(&buf)
}

/// Appends the text of `block` to `buf`.
pub fn extract_block_text(block: &Block, buf: &mut Vec<char>)
    ensures
        final(buf)@ == old(buf)@ + block_text(*block),
    decreases block,
{
    match block {
        Block::Heading { content, .. } => {
            extract_inline_text(content, buf);
            buf.push('\n');
        },
        Block::Paragraph { content } => {
            extract_inline_text(content, buf);
            buf.push('\n');
        },
        Block::CodeBlock { code, .. } => {
            let cs = crate::chars::chars_of(code.as_str());
            extend_chars(buf, &cs);
            if cs.len() == 0 || cs[cs.len() - 1] != '\n' {
                buf.push('\n');
            }
        },
        Block::BlockQuote { children } => {
            let ghost start = buf@;
            let mut i: usize = 0;
            assert(decreases_to!(*block => *children));
            while i < children.len()
                invariant
                    i <= children.len(),
                    decreases_to!(*block => *children),
                    buf@ == start + blocks_text(children@.subrange(0, i as int)),
                decreases children.len() - i,
            {
                proof {
                    assert(decreases_to!(*children => children[i as int]));
                }
                extract_block_text(&children[i], buf);
                i = i + 1;
                assert(children@.subrange(0, i as int).subrange(0, i - 1) =~= children@.subrange(0, i - 1));
            }
            assert(children@.subrange(0, children.len() as int) =~= children@);
        },
        Block::List { items, .. } => {
            let ghost start = buf@;
            let mut i: usize = 0;
            assert(decreases_to!(*block => *items));
            while i < items.len()
                invariant
                    i <= items.len(),
                    decreases_to!(*block => *items),
                    buf@ == start + items_text(items@.subrange(0, i as int)),
                decreases items.len() - i,
            {
                let item = &items[i];
                proof {
                    assert(decreases_to!(*items => items[i as int]));
                    assert(decreases_to!(items[i as int] => items[i as int].children));
                }
                let ghost before = buf@;
                let mut j: usize = 0;
                while j < item.children.len()
                    invariant
                        j <= item.children.len(),
                        buf@ == before + blocks_text(item.children@.subrange(0, j as int)),
                        decreases_to!(*block => item.children),
                    decreases item.children.len() - j,
                {
                    proof {
                        assert(decreases_to!(item.children => item.children[j as int]));
                    }
                    extract_block_text(&item.children[j], buf);
                    j = j + 1;
                    assert(item.children@.subrange(0, j as int).subrange(0, j - 1) =~= item.children@.subrange(0, j - 1));
                }
                assert(item.children@.subrange(0, item.children.len() as int) =~= item.children@);
                i = i + 1;
                assert(items@.subrange(0, i as int).subrange(0, i - 1) =~= items@.subrange(0, i - 1));
            }
            assert(items@.subrange(0, items.len() as int) =~= items@);
        },
        Block::Table { rows, .. } => {
            let ghost start = buf@;
            let mut i: usize = 0;
            while i < rows.len()
                invariant
                    i <= rows.len(),
                    buf@ == start + rows_text(rows@.subrange(0, i as int)),
                decreases rows.len() - i,
            {
                let row = &rows[i];
                let ghost before = buf@;
                let mut j: usize = 0;
                while j < row.cells.len()
                    invariant
                        j <= row.cells.len(),
                        buf@ == before + cells_text(row.cells@.subrange(0, j as int)),
                    decreases row.cells.len() - j,
                {
                    if j > 0 {
                        buf.push(' ');
                    }
                    extract_inline_text(&row.cells[j], buf);
                    j = j + 1;
                    assert(row.cells@.subrange(0, j as int).subrange(0, j - 1) =~= row.cells@.subrange(0, j - 1));
                }
                assert(row.cells@.subrange(0, row.cells.len() as int) =~= row.cells@);
                buf.push('\n');
                i = i + 1;
                assert(rows@.subrange(0, i as int).subrange(0, i - 1) =~= rows@.subrange(0, i - 1));
            }
            assert(rows@.subrange(0, rows.len() as int) =~= rows@);
        },
        Block::ThematicBreak => {},
        Block::HtmlBlock { .. } => {},
    }
}

/// Appends the text of `inlines` to `buf`.
pub fn extract_inline_text(inlines: &Vec<Inline>, buf: &mut Vec<char>)
    ensures
        final(buf)@ == old(buf)@ + inlines_text(inlines@),
    decreases inlines,
{
    let ghost start = buf@;
    let mut i: usize = 0;
    while i < inlines.len()
        invariant
            i <= inlines.len(),
            buf@ == start + inlines_text(inlines@.subrange(0, i as int)),
        decreases inlines.len() - i,
    {
        match &inlines[i] {
            Inline::Text { value } => push_str_chars(buf, value.as_str()),
            Inline::Code { value } => push_str_chars(buf, value.as_str()),
            Inline::Emphasis { children } => extract_inline_text(children, buf),
            Inline::Strong { children } => extract_inline_text(children, buf),
            Inline::Strikethrough { children } => extract_inline_text(children, buf),
            Inline::Link { children, .. } => extract_inline_text(children, buf),
            Inline::Image { alt, .. } => push_str_chars(buf, alt.as_str()),
            Inline::SoftBreak => buf.push(' '),
            Inline::HardBreak => buf.push('\n'),
            Inline::Html { .. } => {},
        }
        i = i + 1;
        assert(inlines@.subrange(0, i as int).subrange(0, i - 1) =~= inlines@.subrange(0, i - 1));
        assert(inlines_text(inlines@.subrange(0, i as int)) == inlines_text(inlines@.subrange(0, i - 1))
            + inline_text(inlines@[i - 1]));
    }
    assert(inlines@.subrange(0, inlines.len() as int) =~= inlines@);
}

} // verus!
