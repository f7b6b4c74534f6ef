//! The Markdown syntax tree, as the parser delivers it, and its conversion
//! to the block model.
//!
//! Conversion rules: unknown node kinds are skipped; a task item is told by
//! the item node itself, checked when its marker is filled; a code block's
//! language is the first whitespace-delimited word of its info string, none
//! when the info string is empty; a link or image title is none when empty;
//! an image's alt text is the flattened text of its descendants.

use vstd::prelude::*;
use crate::block::{Alignment, Block, Inline, ListItem, TableRow};
use crate::chars::{chars_of, is_white_space, is_whitespace_char, push_str_chars, slice_chars, string_of, trim_start};
use crate::document::Document;
use crate::front_matter::{strip_delimiters_spec, yaml_is_mapping, FrontMatter};
use crate::index::opt_view;

verus! {

broadcast use vstd::seq::axiom_seq_subrange_decreases, vstd::seq::axiom_seq_index_decreases;

/// The kind of a syntax node and the values it carries.
#[derive(Debug)]
pub enum NodeKind {
    Document,
    FrontMatter { raw: String },
    Heading { level: u8 },
    Paragraph,
    CodeBlock { info: String, literal: String },
    BlockQuote,
    List { ordered: bool, start: usize },
    Item,
    TaskItem { symbol: Option<char> },
    Table { alignments: Vec<Alignment> },
    TableRow { header: bool },
    TableCell,
    ThematicBreak,
    HtmlBlock { literal: String },
    Text { value: String },
    Code { literal: String },
    Emph,
    Strong,
    Strikethrough,
    Link { url: String, title: String },
    Image { url: String, title: String },
    SoftBreak,
    LineBreak,
    HtmlInline { value: String },
    /// A kind the block model has no place for.
    Other,
}

/// A syntax node and its children, in order.
#[derive(Debug)]
pub struct MdNode {
    pub kind: NodeKind,
    pub children: Vec<MdNode>,
}

/// Whether a node kind becomes a block.
pub open spec fn is_block_kind(k: NodeKind) -> bool {
    match k {
        NodeKind::Heading { .. } | NodeKind::Paragraph | NodeKind::CodeBlock { .. } | NodeKind::BlockQuote
        | NodeKind::List { .. } | NodeKind::Table { .. } | NodeKind::ThematicBreak | NodeKind::HtmlBlock { .. } => true,
        _ => false,
    }
}

/// Whether a node kind becomes an inline element.
pub open spec fn is_inline_kind(k: NodeKind) -> bool {
    match k {
        NodeKind::Text { .. } | NodeKind::Code { .. } | NodeKind::Emph | NodeKind::Strong | NodeKind::Strikethrough
        | NodeKind::Link { .. } | NodeKind::Image { .. } | NodeKind::SoftBreak | NodeKind::LineBreak
        | NodeKind::HtmlInline { .. } => true,
        _ => false,
    }
}

/// The first whitespace-delimited word of `s`, from its start.
pub open spec fn leading_word(s: Seq<char>) -> Seq<char>
    decreases s.len(),
{
    if s.len() == 0 || is_white_space(s[0]) {
        seq![]
    } else {
        seq![s[0]] + leading_word(s.drop_first())
    }
}

/// The language of a code block's info string: none when it is empty; else
/// its first word, or the whole string when it holds no word.
pub open spec fn code_language(info: Seq<char>) -> Option<Seq<char>> {
    if info.len() == 0 {
        None
    } else if trim_start(info).len() == 0 {
        Some(info)
    } else {
        Some(leading_word(trim_start(info)))
    }
}

/// A link title: none when empty.
pub open spec fn title_of(t: Seq<char>) -> Option<Seq<char>> {
    if t.len() == 0 { None } else { Some(t) }
}

/// The text a node contributes to a flattened alt text, itself only.
pub open spec fn own_plain(k: NodeKind) -> Seq<char> {
    match k {
        NodeKind::Text { value } => value@,
        NodeKind::Code { literal } => literal@,
        NodeKind::SoftBreak | NodeKind::LineBreak => seq![' '],
        _ => seq![],
    }
}

/// The flattened text of a node and its descendants.
pub open spec fn plain_of(n: MdNode) -> Seq<char>
    decreases n, 0nat,
{
    own_plain(n.kind) + plains_of(n.children@)
}

/// The flattened text of nodes, concatenated.
pub open spec fn plains_of(ns: Seq<MdNode>) -> Seq<char>
    decreases ns, ns.len(),
{
    if ns.len() == 0 {
        seq![]
    } else {
        plains_of(ns.subrange(0, ns.len() - 1)) + plain_of(ns[ns.len() - 1])
    }
}

/// Whether `i` is the inline element that node `n` converts to.
pub open spec fn inline_rel(n: MdNode, i: Inline) -> bool
    decreases n, 0nat,
{
    match n.kind {
        NodeKind::Text { value } => match i {
            Inline::Text { value: v } => v@ == value@,
            _ => false,
        },
        NodeKind::Code { literal } => match i {
            Inline::Code { value: v } => v@ == literal@,
            _ => false,
        },
        NodeKind::Emph => match i {
            Inline::Emphasis { children } => inlines_rel(n.children@, children@),
            _ => false,
        },
        NodeKind::Strong => match i {
            Inline::Strong { children } => inlines_rel(n.children@, children@),
            _ => false,
        },
        NodeKind::Strikethrough => match i {
            Inline::Strikethrough { children } => inlines_rel(n.children@, children@),
            _ => false,
        },
        NodeKind::Link { url, title } => match i {
            Inline::Link { url: u, title: t, children } => u@ == url@ && opt_view(t) == title_of(title@)
                && inlines_rel(n.children@, children@),
            _ => false,
        },
        NodeKind::Image { url, title } => match i {
            Inline::Image { url: u, title: t, alt } => u@ == url@ && opt_view(t) == title_of(title@)
                && alt@ == plains_of(n.children@),
            _ => false,
        },
        NodeKind::SoftBreak => i is SoftBreak,
        NodeKind::LineBreak => i is HardBreak,
        NodeKind::HtmlInline { value } => match i {
            Inline::Html { value: v } => v@ == value@,
            _ => false,
        },
        _ => false,
    }
}

/// Whether `is` is the conversion of nodes `ns`: each inline node converted,
/// in order, the other nodes skipped.
pub open spec fn inlines_rel(ns: Seq<MdNode>, is: Seq<Inline>) -> bool
    decreases ns, ns.len(),
{
    if ns.len() == 0 {
        is.len() == 0
    } else if !is_inline_kind(ns[ns.len() - 1].kind) {
        inlines_rel(ns.subrange(0, ns.len() - 1), is)
    } else {
        is.len() > 0 && inline_rel(ns[ns.len() - 1], is.last())
            && inlines_rel(ns.subrange(0, ns.len() - 1), is.drop_last())
    }
}

/// The check state of a list item node.
pub open spec fn checked_of(k: NodeKind) -> Option<bool> {
    match k {
        NodeKind::TaskItem { symbol } => Some(symbol.is_some()),
        _ => None,
    }
}

/// Whether a table row node is a header row.
pub open spec fn header_of(k: NodeKind) -> bool {
    match k {
        NodeKind::TableRow { header } => header,
        _ => false,
    }
}

/// Whether `b` is the block that node `n` converts to.
pub open spec fn block_rel(n: MdNode, b: Block) -> bool
    decreases n, 0nat,
{
    match n.kind {
        NodeKind::Heading { level } => match b {
            Block::Heading { level: l, content } => l == level && inlines_rel(n.children@, content@),
            _ => false,
        },
        NodeKind::Paragraph => match b {
            Block::Paragraph { content } => inlines_rel(n.children@, content@),
            _ => false,
        },
        NodeKind::CodeBlock { info, literal } => match b {
            Block::CodeBlock { language, code } => code@ == literal@ && opt_view(language) == code_language(info@),
            _ => false,
        },
        NodeKind::BlockQuote => match b {
            Block::BlockQuote { children } => blocks_rel(n.children@, children@),
            _ => false,
        },
        NodeKind::List { ordered, start } => match b {
            Block::List { ordered: o, start: s, items } => o == ordered
                && s == (if ordered { Some(start) } else { None }) && items_rel(n.children@, items@),
            _ => false,
        },
        NodeKind::Table { alignments } => match b {
            Block::Table { alignments: a, rows } => a@ == alignments@ && rows_rel(n.children@, rows@),
            _ => false,
        },
        NodeKind::ThematicBreak => b is ThematicBreak,
        NodeKind::HtmlBlock { literal } => match b {
            Block::HtmlBlock { html } => html@ == literal@,
            _ => false,
        },
        _ => false,
    }
}

/// Whether `bs` is the conversion of nodes `ns`: each block node converted,
/// in order, the other nodes skipped.
pub open spec fn blocks_rel(ns: Seq<MdNode>, bs: Seq<Block>) -> bool
    decreases ns, ns.len(),
{
    if ns.len() == 0 {
        bs.len() == 0
    } else if !is_block_kind(ns[ns.len() - 1].kind) {
        blocks_rel(ns.subrange(0, ns.len() - 1), bs)
    } else {
        bs.len() > 0 && block_rel(ns[ns.len() - 1], bs.last())
            && blocks_rel(ns.subrange(0, ns.len() - 1), bs.drop_last())
    }
}

/// Whether `it` is the list item that node `n` converts to.
pub open spec fn item_rel(n: MdNode, it: ListItem) -> bool
    decreases n, 0nat,
{
    it.checked == checked_of(n.kind) && blocks_rel(n.children@, it.children@)
}

/// Whether `items` converts the item nodes `ns`, one for one.
pub open spec fn items_rel(ns: Seq<MdNode>, items: Seq<ListItem>) -> bool
    decreases ns, ns.len(),
{
    ns.len() == items.len() && (ns.len() == 0 || (item_rel(ns[ns.len() - 1], items.last())
        && items_rel(ns.subrange(0, ns.len() - 1), items.drop_last())))
}

/// Whether `rows` converts the row nodes `ns`, one for one, each cell's inlines converted.
pub open spec fn rows_rel(ns: Seq<MdNode>, rows: Seq<TableRow>) -> bool
    decreases ns, ns.len(),
{
    ns.len() == rows.len() && (ns.len() == 0 || (rows.last().header == header_of(ns[ns.len() - 1].kind)
        && cells_rel(ns[ns.len() - 1].children@, rows.last().cells@)
        && rows_rel(ns.subrange(0, ns.len() - 1), rows.drop_last())))
}

/// Whether `cells` converts the cell nodes `ns`, one for one.
pub open spec fn cells_rel(ns: Seq<MdNode>, cells: Seq<Vec<Inline>>) -> bool
    decreases ns, ns.len(),
{
    ns.len() == cells.len() && (ns.len() == 0 || (inlines_rel(ns[ns.len() - 1].children@, cells.last()@)
        && cells_rel(ns.subrange(0, ns.len() - 1), cells.drop_last())))
}

/// The language of a code block's info string.
pub fn info_language(info: &str) -> (r: Option<String>)
    ensures
        opt_view(r) == code_language(info@),
{
    let cs = chars_of(info);
    if cs.len() == 0 {
        return None;
    }
    let n = cs.len();
    let mut k: usize = 0;
    assert(cs@.skip(0) =~= cs@);
    while k < n && is_whitespace_char(cs[k])
        invariant
            k <= n == cs.len(),
            cs@ == info@,
            trim_start(cs@.skip(k as int)) == trim_start(info@),
        decreases n - k,
    {
        assert(cs@.skip(k as int).drop_first() =~= cs@.skip(k + 1));
        k = k + 1;
    }
    if k == n {
        assert(cs@.skip(n as int) =~= Seq::<char>::empty());
        return Some(string_of(&cs));
    }
    assert(trim_start(info@) == cs@.skip(k as int));
    let mut j: usize = k;
    assert(cs@.subrange(k as int, k as int) =~= Seq::<char>::empty());
    while j < n && !is_whitespace_char(cs[j])
        invariant
            k <= j <= n == cs.len(),
            leading_word(cs@.skip(k as int)) == cs@.subrange(k as int, j as int) + leading_word(cs@.skip(j as int)),
        decreases n - j,
    {
        assert(cs@.skip(j as int).drop_first() =~= cs@.skip(j + 1));
        assert(cs@.subrange(k as int, j + 1) =~= cs@.subrange(k as int, j as int) + seq![cs@[j as int]]);
        j = j + 1;
    }
    if j == n {
        assert(cs@.skip(n as int) =~= Seq::<char>::empty());
    }
    assert(cs@.subrange(k as int, j as int) + Seq::<char>::empty() =~= cs@.subrange(k as int, j as int));
    let word = slice_chars(&cs, k, j);
    Some(string_of(&word))
}

/// A link or image title: none when empty.
fn link_title(title: &String) -> (r: Option<String>)
    ensures
        opt_view(r) == title_of(title@),
{
    let n = chars_of(title.as_str()).len();
    if n == 0 {
        None
    } else {
        Some(title.clone())
    }
}

/// Appends the flattened text of `node` and its descendants to `buf`.
pub fn collect_plain_text_recursive(node: &MdNode, buf: &mut Vec<char>)
    ensures
        final(buf)@ == old(buf)@ + plain_of(*node),
    decreases node,
{
    match &node.kind {
        NodeKind::Text { value } => push_str_chars(buf, value.as_str()),
        NodeKind::Code { literal } => push_str_chars(buf, literal.as_str()),
        NodeKind::SoftBreak => buf.push(' '),
        NodeKind::LineBreak => buf.push(' '),
        _ => {},
    }
    let ghost start = buf@;
    let mut i: usize = 0;
    assert(decreases_to!(*node => node.children));
    while i < node.children.len()
        invariant
            i <= node.children.len(),
            buf@ == start + plains_of(node.children@.subrange(0, i as int)),
            decreases_to!(*node => node.children),
        decreases node.children.len() - i,
    {
        proof {
            assert(decreases_to!(node.children => node.children[i as int]));
        }
        collect_plain_text_recursive(&node.children[i], buf);
        i = i + 1;
        assert(node.children@.subrange(0, i as int).subrange(0, i - 1) =~= node.children@.subrange(0, i - 1));
    }
    assert(node.children@.subrange(0, node.children.len() as int) =~= node.children@);
}

/// The flattened text of `node` and its descendants.
pub fn collect_plain_text(node: &MdNode) -> (r: String)
    ensures
        r@ == plain_of(*node),
{
    let mut buf: Vec<char> = Vec::new();
    collect_plain_text_recursive(node, &mut buf);
    string_of(&buf)
}

/// The inline elements of the children of `node`.
pub fn collect_inlines(node: &MdNode) -> (r: Vec<Inline>)
    ensures
        inlines_rel(node.children@, r@),
    decreases node, 0nat,
{
    let mut out: Vec<Inline> = Vec::new();
    let mut i: usize = 0;
    assert(decreases_to!(*node => node.children));
    while i < node.children.len()
        invariant
            i <= node.children.len(),
            inlines_rel(node.children@.subrange(0, i as int), out@),
            decreases_to!(*node => node.children),
        decreases node.children.len() - i,
    {
        proof {
            assert(decreases_to!(node.children => node.children[i as int]));
        }
        let ghost before = out@;
        match node_to_inline(&node.children[i]) {
            Some(x) => out.push(x),
            None => {},
        }
        i = i + 1;
        assert(node.children@.subrange(0, i as int).subrange(0, i - 1) =~= node.children@.subrange(0, i - 1));
        assert(out@.len() > before.len() ==> out@.drop_last() =~= before);
    }
    assert(node.children@.subrange(0, node.children.len() as int) =~= node.children@);
    out
}

/// The inline element a node converts to; none for a node of another kind.
pub fn node_to_inline(node: &MdNode) -> (r: Option<Inline>)
    ensures
        match r {
            Some(i) => is_inline_kind(node.kind) && inline_rel(*node, i),
            None => !is_inline_kind(node.kind),
        },
    decreases node, 1nat,
{
    match &node.kind {
        NodeKind::Text { value } => Some(Inline::Text { value: value.clone() }),
        NodeKind::Code { literal } => Some(Inline::Code { value: literal.clone() }),
        NodeKind::Emph => Some(Inline::Emphasis { children: collect_inlines(node) }),
        NodeKind::Strong => Some(Inline::Strong { children: collect_inlines(node) }),
        NodeKind::Strikethrough => Some(Inline::Strikethrough { children: collect_inlines(node) }),
        NodeKind::Link { url, title } => {
            let t = link_title(title);
            Some(Inline::Link { url: url.clone(), title: t, children: collect_inlines(node) })
        },
        NodeKind::Image { url, title } => {
            let t = link_title(title);
            let mut buf: Vec<char> = Vec::new();
            let ghost start = buf@;
            let mut i: usize = 0;
            while i < node.children.len()
                invariant
                    i <= node.children.len(),
                    buf@ == plains_of(node.children@.subrange(0, i as int)),
                decreases node.children.len() - i,
            {
                collect_plain_text_recursive(&node.children[i], &mut buf);
                i = i + 1;
                assert(node.children@.subrange(0, i as int).subrange(0, i - 1) =~= node.children@.subrange(0, i - 1));
            }
            assert(node.children@.subrange(0, node.children.len() as int) =~= node.children@);
            Some(Inline::Image { url: url.clone(), title: t, alt: string_of(&buf) })
        },
        NodeKind::SoftBreak => Some(Inline::SoftBreak),
        NodeKind::LineBreak => Some(Inline::HardBreak),
        NodeKind::HtmlInline { value } => Some(Inline::Html { value: value.clone() }),
        _ => None,
    }
}

/// The blocks of the children of `node`: each block node converted, others skipped.
pub fn ast_to_blocks(node: &MdNode) -> (r: Vec<Block>)
    ensures
        blocks_rel(node.children@, r@),
    decreases node, 0nat,
{
    let mut out: Vec<Block> = Vec::new();
    let mut i: usize = 0;
    assert(decreases_to!(*node => node.children));
    while i < node.children.len()
        invariant
            i <= node.children.len(),
            blocks_rel(node.children@.subrange(0, i as int), out@),
            decreases_to!(*node => node.children),
        decreases node.children.len() - i,
    {
        proof {
            assert(decreases_to!(node.children => node.children[i as int]));
        }
        let ghost before = out@;
        match node_to_block(&node.children[i]) {
            Some(b) => out.push(b),
            None => {},
        }
        i = i + 1;
        assert(node.children@.subrange(0, i as int).subrange(0, i - 1) =~= node.children@.subrange(0, i - 1));
        assert(out@.len() > before.len() ==> out@.drop_last() =~= before);
    }
    assert(node.children@.subrange(0, node.children.len() as int) =~= node.children@);
    out
}

/// The list item a node converts to.
pub fn list_item_from_node(node: &MdNode) -> (r: ListItem)
    ensures
        item_rel(*node, r),
    decreases node, 1nat,
{
    let checked = match &node.kind {
        NodeKind::TaskItem { symbol } => Some(symbol.is_some()),
        _ => None,
    };
    ListItem { checked, children: ast_to_blocks(node) }
}

/// The block a node converts to; none for a node of another kind.
pub fn node_to_block(node: &MdNode) -> (r: Option<Block>)
    ensures
        match r {
            Some(b) => is_block_kind(node.kind) && block_rel(*node, b),
            None => !is_block_kind(node.kind),
        },
    decreases node, 2nat,
{
    match &node.kind {
        NodeKind::Heading { level } => Some(Block::Heading { level: *level, content: collect_inlines(node) }),
        NodeKind::Paragraph => Some(Block::Paragraph { content: collect_inlines(node) }),
        NodeKind::CodeBlock { info, literal } => {
            Some(Block::CodeBlock { language: info_language(info.as_str()), code: literal.clone() })
        },
        NodeKind::BlockQuote => Some(Block::BlockQuote { children: ast_to_blocks(node) }),
        NodeKind::List { ordered, start } => {
            let mut items: Vec<ListItem> = Vec::new();
            let mut i: usize = 0;
            assert(decreases_to!(*node => node.children));
            while i < node.children.len()
                invariant
                    i <= node.children.len(),
                    items_rel(node.children@.subrange(0, i as int), items@),
                    decreases_to!(*node => node.children),
                decreases node.children.len() - i,
            {
                proof {
                    assert(decreases_to!(node.children => node.children[i as int]));
                }
                let ghost before = items@;
                let it = list_item_from_node(&node.children[i]);
                items.push(it);
                i = i + 1;
                assert(node.children@.subrange(0, i as int).subrange(0, i - 1) =~= node.children@.subrange(0, i - 1));
                assert(items@.drop_last() =~= before);
            }
            assert(node.children@.subrange(0, node.children.len() as int) =~= node.children@);
            let start = if *ordered { Some(*start) } else { None };
            Some(Block::List { ordered: *ordered, start, items })
        },
        NodeKind::Table { alignments } => {
            let mut rows: Vec<TableRow> = Vec::new();
            let mut i: usize = 0;
            assert(decreases_to!(*node => node.children));
            while i < node.children.len()
                invariant
                    i <= node.children.len(),
                    rows_rel(node.children@.subrange(0, i as int), rows@),
                    decreases_to!(*node => node.children),
                decreases node.children.len() - i,
            {
                let row = &node.children[i];
                proof {
                    assert(decreases_to!(node.children => node.children[i as int]));
                    assert(decreases_to!(node.children[i as int] => node.children[i as int].children));
                }
                let header = match &row.kind {
                    NodeKind::TableRow { header } => *header,
                    _ => false,
                };
                let mut cells: Vec<Vec<Inline>> = Vec::new();
                let mut j: usize = 0;
                while j < row.children.len()
                    invariant
                        j <= row.children.len(),
                        cells_rel(row.children@.subrange(0, j as int), cells@),
                        decreases_to!(*node => row.children),
                    decreases row.children.len() - j,
                {
                    proof {
                        assert(decreases_to!(row.children => row.children[j as int]));
                    }
                    let ghost cbefore = cells@;
                    let c = collect_inlines(&row.children[j]);
                    cells.push(c);
                    j = j + 1;
                    assert(row.children@.subrange(0, j as int).subrange(0, j - 1) =~= row.children@.subrange(0, j - 1));
                    assert(cells@.drop_last() =~= cbefore);
                }
                assert(row.children@.subrange(0, row.children.len() as int) =~= row.children@);
                let ghost before = rows@;
                rows.push(TableRow { header, cells });
                i = i + 1;
                assert(node.children@.subrange(0, i as int).subrange(0, i - 1) =~= node.children@.subrange(0, i - 1));
                assert(rows@.drop_last() =~= before);
            }
            assert(node.children@.subrange(0, node.children.len() as int) =~= node.children@);
            let a = slice_alignments(alignments);
            Some(Block::Table { alignments: a, rows })
        },
        NodeKind::ThematicBreak => Some(Block::ThematicBreak),
        NodeKind::HtmlBlock { literal } => Some(Block::HtmlBlock { html: literal.clone() }),
        _ => None,
    }
}

/// A copy of column alignments.
fn slice_alignments(a: &Vec<Alignment>) -> (r: Vec<Alignment>)
    ensures
        r@ == a@,
{
    let mut out: Vec<Alignment> = Vec::new();
    let mut i: usize = 0;
    while i < a.len()
        invariant
            i <= a.len(),
            out@ == a@.subrange(0, i as int),
        decreases a.len() - i,
    {
        out.push(a[i]);
        i = i + 1;
        assert(out@ =~= a@.subrange(0, i as int));
    }
    assert(a@.subrange(0, a.len() as int) =~= a@);
    out
}

/// The raw text of the first front matter node among `ns`.
pub open spec fn first_front_matter(ns: Seq<MdNode>) -> Option<Seq<char>>
    decreases ns.len(),
{
    if ns.len() == 0 {
        None
    } else {
        match ns[0].kind {
            NodeKind::FrontMatter { raw } => Some(raw@),
            _ => first_front_matter(ns.drop_first()),
        }
    }
}

/// Whether `fm` is what the raw front matter text `raw` parses to.
pub open spec fn front_matter_rel(raw: Option<Seq<char>>, fm: Option<FrontMatter>) -> bool {
    match raw {
        None => fm.is_none(),
        Some(r) => {
            let yaml = strip_delimiters_spec(r);
            if yaml.len() == 0 || !yaml_is_mapping(yaml) {
                fm.is_none()
            } else {
                fm.is_some() && fm.unwrap().raw@ == yaml
            }
        },
    }
}

/// The document of a parsed tree: the front matter of its first front
/// matter node, and the blocks of its children.
pub fn document_from_tree(root: &MdNode) -> (r: Document)
    ensures
        front_matter_rel(first_front_matter(root.children@), r.front_matter),
        blocks_rel(root.children@, r.blocks@),
{
    let mut front_matter: Option<FrontMatter> = None;
    let mut i: usize = 0;
    assert(root.children@.skip(0) =~= root.children@);
    while i < root.children.len()
        invariant
            i <= root.children.len(),
            first_front_matter(root.children@) == first_front_matter(root.children@.skip(i as int)),
            front_matter.is_none(),
        decreases root.children.len() - i,
    {
        assert(root.children@.skip(i as int).drop_first() =~= root.children@.skip(i + 1));
        assert(root.children@.skip(i as int)[0] == root.children@[i as int]);
        match &root.children[i].kind {
            NodeKind::FrontMatter { raw } => {
                let fm = FrontMatter::parse(raw.as_str());
                let blocks = ast_to_blocks(root);
                return Document::new(fm, blocks);
            },
            _ => {},
        }
        i = i + 1;
    }
    assert(root.children@.skip(root.children.len() as int) =~= Seq::<MdNode>::empty());
    let blocks = ast_to_blocks(root);
    Document::new(front_matter, blocks)
}

} // verus!
