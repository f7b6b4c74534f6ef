//! A parsed Markdown document: optional front matter and its blocks, with
//! the title and plain-text projections.

use vstd::prelude::*;
use crate::block::Block;
use crate::front_matter::{yaml_bool, yaml_i64, yaml_str, yaml_str_list, FrontMatter};
use crate::text::{extract_text, inlines_text, inlines_to_text, plain_text_of};

verus! {

/// The front matter key of the title.
pub open spec fn title_key() -> Seq<char> {
    seq!['t', 'i', 't', 'l', 'e']
}

/// The string field `key` of the front matter, if any.
pub open spec fn fm_str(fm: Option<FrontMatter>, key: Seq<char>) -> Option<Seq<char>> {
    match fm {
        Some(f) => yaml_str(f.raw@, key),
        None => None,
    }
}

/// The text of the first top-level level-1 heading, if any.
pub open spec fn first_h1(blocks: Seq<Block>) -> Option<Seq<char>>
    decreases blocks.len(),
{
    if blocks.len() == 0 {
        None
    } else {
        match blocks[0] {
            Block::Heading { level, content } => if level == 1 {
                Some(inlines_text(content@))
            } else {
                first_h1(blocks.drop_first())
            },
            _ => first_h1(blocks.drop_first()),
        }
    }
}

/// The title of a document: the front matter's `title` string if present,
/// else the first level-1 heading's text, else none.
pub open spec fn title_spec(fm: Option<FrontMatter>, blocks: Seq<Block>) -> Option<Seq<char>> {
    match fm_str(fm, title_key()) {
        Some(t) => Some(t),
        None => first_h1(blocks),
    }
}

/// A parsed Markdown document.
#[derive(Debug)]
pub struct Document {
    /// Front matter, when the document has a YAML mapping at its top.
    pub front_matter: Option<FrontMatter>,
    /// The document's blocks.
    pub blocks: Vec<Block>,
}

impl Document {
    /// A document of the given parts.
    pub fn new(front_matter: Option<FrontMatter>, blocks: Vec<Block>) -> (r: Self)
        ensures
            r.front_matter == front_matter,
            r.blocks == blocks,
    {
        Document { front_matter, blocks }
    }

    /// The plain text of the blocks (see `extract_text`).
    pub fn plain_text(&self) -> (r: String)
        ensures
            r@ == plain_text_of(self.blocks@),
    {
        extract_text(&self.blocks)
    }

    /// The title: front matter `title` first, then the first level-1 heading.
    pub fn title(&self) -> (r: Option<String>)
        ensures
            match title_spec(self.front_matter, self.blocks@) {
                Some(t) => r.is_some() && r.unwrap()@ == t,
                None => r.is_none(),
            },
    {
        if let Some(fm) = &self.front_matter {
            proof {
                reveal_strlit("title");
            }
            assert("title"@ =~= title_key());
            if let Some(t) = fm.get_str("title") {
                return Some(t);
            }
        }
        let mut i: usize = 0;
        assert(self.blocks@.skip(0) =~= self.blocks@);
        while i < self.blocks.len()
            invariant
                i <= self.blocks.len(),
                fm_str(self.front_matter, title_key()) is None,
                first_h1(self.blocks@) == first_h1(self.blocks@.skip(i as int)),
            decreases self.blocks.len() - i,
        {
            assert(self.blocks@.skip(i as int).drop_first() =~= self.blocks@.skip(i + 1));
            assert(self.blocks@.skip(i as int)[0] == self.blocks@[i as int]);
            match &self.blocks[i] {
                Block::Heading { level, content } => {
                    if *level == 1 {
                        return Some(inlines_to_text(content));
                    }
                },
                _ => {},
            }
            i = i + 1;
        }
        assert(self.blocks@.skip(self.blocks.len() as int) =~= Seq::<Block>::empty());
        None
    }

    /// Whether the document has front matter.
    pub fn has_front_matter(&self) -> (r: bool)
        ensures
            r == self.front_matter.is_some(),
    {
        self.front_matter.is_some()
    }

    /// A string field of the front matter.
    pub fn front_matter_string(&self, key: &str) -> (r: Option<String>)
        ensures
            match fm_str(self.front_matter, key@) {
                Some(s) => r.is_some() && r.unwrap()@ == s,
                None => r.is_none(),
            },
    {
        match &self.front_matter {
            Some(fm) => fm.get_str(key),
            None => None,
        }
    }

    /// A string-list field of the front matter.
    pub fn front_matter_string_list(&self, key: &str) -> (r: Option<Vec<String>>)
        ensures
            match self.front_matter {
                Some(f) => match yaml_str_list(f.raw@, key@) {
                    Some(l) => r.is_some() && r.unwrap()@.map_values(|s: String| s@) == l,
                    None => r.is_none(),
                },
                None => r.is_none(),
            },
    {
        match &self.front_matter {
            Some(fm) => fm.get_string_list(key),
            None => None,
        }
    }

    /// An integer field of the front matter.
    pub fn front_matter_int(&self, key: &str) -> (r: Option<i64>)
        ensures
            r == match self.front_matter {
                Some(f) => yaml_i64(f.raw@, key@),
                None => None,
            },
    {
        match &self.front_matter {
            Some(fm) => fm.get_i64(key),
            None => None,
        }
    }

    /// A boolean field of the front matter.
    pub fn front_matter_bool(&self, key: &str) -> (r: Option<bool>)
        ensures
            r == match self.front_matter {
                Some(f) => yaml_bool(f.raw@, key@),
                None => None,
            },
    {
        match &self.front_matter {
            Some(fm) => fm.get_bool(key),
            None => None,
        }
    }

    /// The number of top-level blocks.
    pub fn block_count(&self) -> (r: usize)
        ensures
            r == self.blocks@.len(),
    {
        self.blocks.len()
    }
}

/// Title precedence: a front matter `title` string wins over any heading;
/// without one the first level-1 heading gives the title; with neither there is none.
pub proof fn lemma_title_precedence(fm: Option<FrontMatter>, blocks: Seq<Block>)
    ensures
        fm_str(fm, title_key()) is Some ==> title_spec(fm, blocks) == fm_str(fm, title_key()),
        fm_str(fm, title_key()) is None ==> title_spec(fm, blocks) == first_h1(blocks),
        fm_str(fm, title_key()) is None && first_h1(blocks) is None ==> title_spec(fm, blocks) is None,
{
}

} // verus!
