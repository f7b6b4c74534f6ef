//! The decisions of the index: which files are indexed and how, when a file
//! is fresh, which cached rows are stale, and how a metadata query is
//! composed. The stores themselves (SQLite and the full-text index) run
//! these decisions.

use vstd::prelude::*;
use crate::chars::{chars_of, push_str_chars, string_of};
use crate::document::{fm_str, title_spec, Document};
use crate::front_matter::yaml_str_list;
use crate::ignore::join_path;
use crate::location::{relative_components, Entry, EntryKind, Location, Scope};
use crate::text::plain_text_of;

verus! {

/// A file as the metadata store records it.
#[derive(Debug, Clone)]
pub struct FileEntry {
    /// Path relative to the Location root, `/`-separated.
    pub path: String,
    /// Modification time, nanoseconds since the Unix epoch (UTC).
    pub mtime: i64,
    /// Size in bytes.
    pub size: u64,
    /// Content digest; reserved, not computed.
    pub content_hash: Option<String>,
    /// Whether the file is in the full-text index.
    pub indexed: bool,
}

/// Metadata extracted from a Markdown file's front matter.
#[derive(Debug, Clone, Default)]
pub struct FileMetadata {
    /// Title, from the front matter or the first level-1 heading.
    pub title: Option<String>,
    /// Tags.
    pub tags: Vec<String>,
    /// Date string.
    pub date: Option<String>,
    /// Area label.
    pub area: Option<String>,
}

/// Counters of a metadata operation.
#[derive(Debug, Clone, Copy, Default)]
pub struct MetadataStats {
    pub files_added: usize,
    pub files_updated: usize,
    pub files_removed: usize,
}

/// Counters of full-text index operations.
#[derive(Debug, Clone, Copy, Default)]
pub struct SearchStats {
    pub documents_added: usize,
    pub documents_removed: usize,
}

/// Counters of a rebuild or an incremental update.
#[derive(Debug, Clone, Copy, Default)]
pub struct BuildStats {
    /// Managed files found.
    pub files_scanned: usize,
    /// Markdown files put in the full-text index.
    pub markdown_indexed: usize,
    /// Files written to the metadata store.
    pub metadata_updated: usize,
    /// Stale rows removed.
    pub stale_removed: usize,
    /// Wall-clock duration.
    pub duration_ms: u64,
}

/// The errors of the index.
#[derive(Debug, Clone, PartialEq, Eq)]
pub enum IndexError {
    Sqlite(String),
    Tantivy(String),
    QueryParse(String),
    Io(String),
    Vfs(String),
    NotFound(String),
    AlreadyExists(String),
    InvalidState(String),
    CorruptedData(String),
}

/// Nanoseconds in a second.
pub const NANOS_PER_SECOND: i128 = 1_000_000_000;

/// Whether a file must be indexed again: its stored and on-disk modification
/// times differ by more than one second, or one of them is missing.
pub open spec fn needs_update_spec(on_disk: Option<i64>, stored: Option<i64>) -> bool {
    match (on_disk, stored) {
        (Some(d), Some(s)) => d - s > NANOS_PER_SECOND || s - d > NANOS_PER_SECOND,
        _ => true,
    }
}

/// Whether a file must be indexed again. Timestamps within one second of
/// each other count as the same: coarse filesystem clocks do not cause
/// spurious work.
pub fn needs_update(on_disk: Option<i64>, stored: Option<i64>) -> (r: bool)
    ensures
        r == needs_update_spec(on_disk, stored),
{
    match (on_disk, stored) {
        (Some(d), Some(s)) => {
            let diff: i128 = d as i128 - s as i128;
            diff > NANOS_PER_SECOND || diff < -NANOS_PER_SECOND
        },
        _ => true,
    }
}

/// Whether `s` ends with `suffix`.
pub open spec fn ends_with(s: Seq<char>, suffix: Seq<char>) -> bool {
    suffix.len() <= s.len() && s.skip(s.len() - suffix.len()) == suffix
}

/// Whether a relative path names a Markdown file.
pub open spec fn is_markdown_spec(path: Seq<char>) -> bool {
    ends_with(path, seq!['.', 'm', 'd']) || ends_with(path, seq!['.', 'm', 'a', 'r', 'k', 'd', 'o', 'w', 'n'])
}

/// Whether the characters `s` end with `suffix`.
fn chars_end_with(s: &Vec<char>, suffix: &Vec<char>) -> (r: bool)
    ensures
        r == ends_with(s@, suffix@),
{
    if suffix.len() > s.len() {
        return false;
    }
    let off = s.len() - suffix.len();
    let mut i: usize = 0;
    while i < suffix.len()
        invariant
            i <= suffix.len(),
            off + suffix.len() == s.len(),
            forall|j: int| 0 <= j < i ==> s@[off + j] == suffix@[j],
        decreases suffix.len() - i,
    {
        if s[off + i] != suffix[i] {
            assert(s@.skip(off as int)[i as int] != suffix@[i as int]);
            return false;
        }
        i = i + 1;
    }
    assert(s@.skip(off as int) =~= suffix@);
    true
}

/// Whether a relative path names a Markdown file (`.md` or `.markdown`).
pub fn is_markdown_path(path: &str) -> (r: bool)
    ensures
        r == is_markdown_spec(path@),
{
    let cs = chars_of(path);
    let md: Vec<char> = vec!['.', 'm', 'd'];
    let markdown: Vec<char> = vec!['.', 'm', 'a', 'r', 'k', 'd', 'o', 'w', 'n'];
    assert(md@ =~= seq!['.', 'm', 'd']);
    assert(markdown@ =~= seq!['.', 'm', 'a', 'r', 'k', 'd', 'o', 'w', 'n']);
    chars_end_with(&cs, &md) || chars_end_with(&cs, &markdown)
}

/// Whether a walked entry is indexed at all: a file in Managed scope.
pub fn is_indexable(entry: &Entry) -> (r: bool)
    ensures
        r == (entry.kind == EntryKind::File && entry.scope == Scope::Managed),
{
    entry.kind == EntryKind::File && entry.scope == Scope::Managed
}

/// The entries of a walk that a build indexes, in order: files in Managed scope.
pub open spec fn indexable_of(s: Seq<Entry>) -> Seq<Entry>
    decreases s.len(),
{
    if s.len() == 0 {
        seq![]
    } else if s.last().kind == EntryKind::File && s.last().scope == Scope::Managed {
        indexable_of(s.drop_last()).push(s.last())
    } else {
        indexable_of(s.drop_last())
    }
}

/// Keeps the entries that a build indexes: files in Managed scope, in order.
pub fn select_indexable(entries: Vec<Entry>) -> (r: Vec<Entry>)
    ensures
        r@ == indexable_of(entries@),
{
    let ghost all = entries@;
    let mut rest = entries;
    let mut kept_rev: Vec<Entry> = Vec::new();
    let ghost mut tail: Seq<Entry> = seq![];
    while rest.len() > 0
        invariant
            all == rest@ + tail,
            kept_rev@.len() == indexable_of(all).len() - indexable_of(rest@).len(),
            indexable_of(all) == indexable_of(rest@) + rev_entries(kept_rev@),
        decreases rest.len(),
    {
        let ghost before = rest@;
        let e = rest.pop().unwrap();
        assert(before =~= rest@.push(e));
        assert(before.drop_last() =~= rest@);
        proof {
            tail = seq![e] + tail;
        }
        assert(all =~= rest@ + tail);
        if is_indexable(&e) {
            let ghost kb = kept_rev@;
            kept_rev.push(e);
            assert(kept_rev@.drop_last() =~= kb);
            assert(rev_entries(kept_rev@) =~= seq![e] + rev_entries(kb));
            assert(indexable_of(before) == indexable_of(rest@).push(e));
            assert(indexable_of(rest@).push(e) + rev_entries(kb) =~= indexable_of(rest@) + (seq![e] + rev_entries(kb)));
        }
    }
    assert(indexable_of(rest@) =~= Seq::<Entry>::empty());
    let mut out: Vec<Entry> = Vec::new();
    let ghost target = rev_entries(kept_rev@);
    assert(out@ + rev_entries(kept_rev@) =~= target);
    while kept_rev.len() > 0
        invariant
            out@ + rev_entries(kept_rev@) == target,
        decreases kept_rev.len(),
    {
        let ghost kb = kept_rev@;
        let e = kept_rev.pop().unwrap();
        assert(kept_rev@ =~= kb.drop_last());
        assert(rev_entries(kb) =~= seq![e] + rev_entries(kept_rev@));
        let ghost ob = out@;
        out.push(e);
        assert(out@ + rev_entries(kept_rev@) =~= ob + rev_entries(kb));
    }
    assert(rev_entries(kept_rev@) =~= Seq::<Entry>::empty());
    assert(out@ =~= target);
    out
}

/// The paths of entries relative to `root`, in order; entries outside it are left out.
pub open spec fn relative_paths_of(root: Seq<char>, s: Seq<Entry>) -> Seq<Seq<char>>
    decreases s.len(),
{
    if s.len() == 0 {
        seq![]
    } else {
        match relative_components(root, s.last().path@) {
            Some(rel) => relative_paths_of(root, s.drop_last()).push(join_path(rel)),
            None => relative_paths_of(root, s.drop_last()),
        }
    }
}

/// The set of paths alive in a build: the relative paths of its files,
/// against which stale rows are pruned.
pub fn current_paths(location: &Location, files: &Vec<Entry>) -> (r: Vec<String>)
    ensures
        string_views(r@) == relative_paths_of(location.root@, files@),
{
    let mut out: Vec<String> = Vec::new();
    let mut i: usize = 0;
    while i < files.len()
        invariant
            i <= files.len(),
            string_views(out@) == relative_paths_of(location.root@, files@.take(i as int)),
        decreases files.len() - i,
    {
        assert(files@.take(i + 1).drop_last() =~= files@.take(i as int));
        assert(files@.take(i + 1).last() == files@[i as int]);
        match location.relative_path(files[i].path.as_str()) {
            Some(p) => {
                let ghost before = out@;
                out.push(p);
                assert(string_views(out@) =~= string_views(before).push(p@));
            },
            None => {},
        }
        i = i + 1;
    }
    assert(files@.take(files.len() as int) =~= files@);
    out
}

/// `s` in reverse order.
pub open spec fn rev_entries(s: Seq<Entry>) -> Seq<Entry>
    decreases s.len(),
{
    if s.len() == 0 {
        seq![]
    } else {
        seq![s.last()] + rev_entries(s.drop_last())
    }
}

/// The view of an optional string.
pub open spec fn opt_view(o: Option<String>) -> Option<Seq<char>> {
    match o {
        Some(s) => Some(s@),
        None => None,
    }
}

/// The front matter key of the tags.
pub open spec fn tags_key() -> Seq<char> {
    seq!['t', 'a', 'g', 's']
}

/// The front matter key of the date.
pub open spec fn date_key() -> Seq<char> {
    seq!['d', 'a', 't', 'e']
}

/// The front matter key of the area.
pub open spec fn area_key() -> Seq<char> {
    seq!['a', 'r', 'e', 'a']
}

/// The tags of a document: its front matter's `tags` strings, else none.
pub open spec fn tags_spec(doc: Document) -> Seq<Seq<char>> {
    match doc.front_matter {
        Some(f) => match yaml_str_list(f.raw@, tags_key()) {
            Some(l) => l,
            None => seq![],
        },
        None => seq![],
    }
}

/// Whether `m` is the metadata of `doc`: title by the title rule, tags,
/// date and area from the front matter.
pub open spec fn metadata_of(doc: Document, m: FileMetadata) -> bool {
    &&& opt_view(m.title) == title_spec(doc.front_matter, doc.blocks@)
    &&& m.tags@.map_values(|s: String| s@) == tags_spec(doc)
    &&& opt_view(m.date) == fm_str(doc.front_matter, date_key())
    &&& opt_view(m.area) == fm_str(doc.front_matter, area_key())
}

/// Extracts a document's metadata: title from the front matter `title`,
/// falling back to the first level-1 heading; `tags` (empty when absent);
/// `date`; `area`.
pub fn metadata_from_document(doc: &Document) -> (m: FileMetadata)
    ensures
        metadata_of(*doc, m),
{
    proof {
        reveal_strlit("tags");
        reveal_strlit("date");
        reveal_strlit("area");
    }
    assert("tags"@ =~= tags_key());
    assert("date"@ =~= date_key());
    assert("area"@ =~= area_key());
    let tags = match doc.front_matter_string_list("tags") {
        Some(l) => l,
        None => {
            let v: Vec<String> = Vec::new();
            assert(v@.map_values(|s: String| s@) =~= Seq::<Seq<char>>::empty());
            v
        },
    };
    let title = doc.title();
    let date = doc.front_matter_string("date");
    let area = doc.front_matter_string("area");
    FileMetadata { title, tags, date, area }
}

/// What indexing one file writes.
#[derive(Debug)]
pub struct IndexPlan {
    /// The row of the metadata store.
    pub file: FileEntry,
    /// For a Markdown file that was read and parsed: its metadata and the
    /// full-text document's title and text.
    pub document: Option<(FileMetadata, String)>,
}

/// Plans the indexing of one file at `rel_path`. `doc` is the parsed file
/// when it is Markdown and could be read; then the file is marked indexed,
/// its metadata extracted and its plain text given to the full-text index.
/// Any other file is recorded with `indexed` false.
pub fn plan_index_file(rel_path: String, mtime: i64, size: u64, doc: Option<&Document>) -> (p: IndexPlan)
    ensures
        p.file.path == rel_path,
        p.file.mtime == mtime,
        p.file.size == size,
        p.file.content_hash.is_none(),
        p.file.indexed == doc.is_some(),
        p.document.is_some() == doc.is_some(),
        doc.is_some() ==> metadata_of(*doc.unwrap(), p.document.unwrap().0),
        doc.is_some() ==> p.document.unwrap().1@ == plain_text_of(doc.unwrap().blocks@),
{
    match doc {
        Some(d) => {
            let meta = metadata_from_document(d);
            let text = d.plain_text();
            IndexPlan {
                file: FileEntry { path: rel_path, mtime, size, content_hash: None, indexed: true },
                document: Some((meta, text)),
            }
        },
        None => IndexPlan {
            file: FileEntry { path: rel_path, mtime, size, content_hash: None, indexed: false },
            document: None,
        },
    }
}

impl BuildStats {
    /// Counts one file written to the metadata store, and one Markdown file
    /// indexed when `markdown` holds; saturating.
    pub fn record_file(&mut self, markdown: bool)
        ensures
            final(self).metadata_updated == if old(self).metadata_updated < usize::MAX {
                old(self).metadata_updated + 1
            } else {
                old(self).metadata_updated as int
            },
            final(self).markdown_indexed == if markdown && old(self).markdown_indexed < usize::MAX {
                old(self).markdown_indexed + 1
            } else {
                old(self).markdown_indexed as int
            },
            final(self).files_scanned == old(self).files_scanned,
            final(self).stale_removed == old(self).stale_removed,
            final(self).duration_ms == old(self).duration_ms,
    {
        if self.metadata_updated < usize::MAX {
            self.metadata_updated = self.metadata_updated + 1;
        }
        if markdown && self.markdown_indexed < usize::MAX {
            self.markdown_indexed = self.markdown_indexed + 1;
        }
    }
}

/// The views of a sequence of strings.
pub open spec fn string_views(v: Seq<String>) -> Seq<Seq<char>> {
    v.map_values(|s: String| s@)
}

/// The paths of `stored` that are not in `current`, in their order.
pub open spec fn stale_spec(stored: Seq<Seq<char>>, current: Seq<Seq<char>>) -> Seq<Seq<char>>
    decreases stored.len(),
{
    if stored.len() == 0 {
        seq![]
    } else {
        let rest = stale_spec(stored.drop_last(), current);
        if current.contains(stored.last()) {
            rest
        } else {
            rest.push(stored.last())
        }
    }
}

/// Rebuilding reads the same metadata from the same document: the metadata
/// of a document is determined by it, field by field.
pub proof fn lemma_metadata_determined(doc: Document, m1: FileMetadata, m2: FileMetadata)
    requires
        metadata_of(doc, m1),
        metadata_of(doc, m2),
    ensures
        opt_view(m1.title) == opt_view(m2.title),
        m1.tags@.map_values(|s: String| s@) == m2.tags@.map_values(|s: String| s@),
        opt_view(m1.date) == opt_view(m2.date),
        opt_view(m1.area) == opt_view(m2.area),
{
}

/// Whether `s` is among `v`.
fn contains_string(v: &Vec<String>, s: &String) -> (r: bool)
    ensures
        r == string_views(v@).contains(s@),
{
    let mut i: usize = 0;
    while i < v.len()
        invariant
            i <= v.len(),
            forall|j: int| 0 <= j < i ==> v@[j]@ != s@,
        decreases v.len() - i,
    {
        if v[i] == *s {
            assert(string_views(v@)[i as int] == s@);
            return true;
        }
        i = i + 1;
    }
    assert(!string_views(v@).contains(s@)) by {
        if string_views(v@).contains(s@) {
            let j = choose|j: int| 0 <= j < string_views(v@).len() && string_views(v@)[j] == s@;
            assert(v@[j]@ == s@);
        }
    }
    false
}

/// The stored paths that are not among the current ones: the rows that
/// stale pruning removes.
pub fn stale_paths(stored: &Vec<String>, current: &Vec<String>) -> (r: Vec<String>)
    ensures
        string_views(r@) == stale_spec(string_views(stored@), string_views(current@)),
{
    let mut out: Vec<String> = Vec::new();
    let mut i: usize = 0;
    while i < stored.len()
        invariant
            i <= stored.len(),
            string_views(out@) == stale_spec(string_views(stored@).take(i as int), string_views(current@)),
        decreases stored.len() - i,
    {
        assert(string_views(stored@).take(i + 1).drop_last() =~= string_views(stored@).take(i as int));
        assert(string_views(stored@).take(i + 1).last() == stored@[i as int]@);
        if !contains_string(current, &stored[i]) {
            let p = stored[i].clone();
            let ghost before = out@;
            out.push(p);
            assert(string_views(out@) =~= string_views(before).push(p@));
        }
        i = i + 1;
    }
    assert(string_views(stored@).take(stored.len() as int) =~= string_views(stored@));
    out
}

/// Stale pruning: a stored path is pruned exactly when it is not current,
/// and nothing else is pruned.
pub proof fn lemma_stale_exact(stored: Seq<Seq<char>>, current: Seq<Seq<char>>, p: Seq<char>)
    ensures
        stale_spec(stored, current).contains(p) <==> (stored.contains(p) && !current.contains(p)),
    decreases stored.len(),
{
    if stored.len() > 0 {
        lemma_stale_exact(stored.drop_last(), current, p);
        let rest = stale_spec(stored.drop_last(), current);
        assert(stored =~= stored.drop_last().push(stored.last()));
        if stored.contains(p) && !current.contains(p) {
            if !stored.drop_last().contains(p) {
                let j = choose|j: int| 0 <= j < stored.len() && stored[j] == p;
                if j < stored.len() - 1 {
                    assert(stored.drop_last()[j] == p);
                }
                assert(stale_spec(stored, current).last() == p);
            }
        }
        if stale_spec(stored, current).contains(p) {
            if !rest.contains(p) {
                let j = choose|j: int| 0 <= j < stale_spec(stored, current).len() && stale_spec(stored, current)[j] == p;
                if current.contains(stored.last()) {
                } else {
                    assert(j == rest.len());
                }
                assert(stored[stored.len() - 1] == p);
            } else {
                let j = choose|j: int| 0 <= j < stored.drop_last().len() && stored.drop_last()[j] == p;
                assert(stored[j] == p);
            }
        }
        if stored.drop_last().contains(p) && !current.contains(p) {
            let j = choose|j: int| 0 <= j < rest.len() && rest[j] == p;
            assert(stale_spec(stored, current)[j] == p);
        }
    }
}

/// Stale paths of unique stored paths are unique.
pub proof fn lemma_stale_unique(stored: Seq<Seq<char>>, current: Seq<Seq<char>>)
    requires
        stored.no_duplicates(),
    ensures
        stale_spec(stored, current).no_duplicates(),
    decreases stored.len(),
{
    if stored.len() > 0 {
        let init = stored.drop_last();
        assert(init.no_duplicates());
        lemma_stale_unique(init, current);
        let rest = stale_spec(init, current);
        if !current.contains(stored.last()) {
            lemma_stale_exact(init, current, stored.last());
            assert(!init.contains(stored.last())) by {
                if init.contains(stored.last()) {
                    let j = choose|j: int| 0 <= j < init.len() && init[j] == stored.last();
                    assert(stored[j] == stored[stored.len() - 1]);
                }
            }
            assert(!rest.contains(stored.last()));
            let pushed = rest.push(stored.last());
            assert forall|i: int, j: int| 0 <= i < pushed.len() && 0 <= j < pushed.len() && i != j implies pushed[i] != pushed[j] by {
                if i < rest.len() && j < rest.len() {
                } else if i == rest.len() {
                    assert(rest[j] == pushed[j]);
                } else {
                    assert(rest[i] == pushed[i]);
                }
            }
        }
    }
}

/// Stale pruning counts exactly the missing paths: with unique stored paths,
/// the number of stale paths is the size of the stored set minus the current set.
pub proof fn lemma_stale_count(stored: Seq<Seq<char>>, current: Seq<Seq<char>>)
    requires
        stored.no_duplicates(),
    ensures
        stale_spec(stored, current).len() == stored.to_set().difference(current.to_set()).len(),
{
    let st = stale_spec(stored, current);
    lemma_stale_unique(stored, current);
    assert(st.to_set() =~= stored.to_set().difference(current.to_set())) by {
        assert forall|p: Seq<char>| st.to_set().contains(p) <==> stored.to_set().difference(current.to_set()).contains(p) by {
            lemma_stale_exact(stored, current, p);
        }
    }
    st.unique_seq_to_set();
}

/// Stale pruning at build level: against the paths alive in a build (the
/// relative paths of the walk's Managed files), a stored path is pruned
/// exactly when it is no longer alive, and with unique stored paths the
/// number pruned is the size of that set difference.
pub proof fn lemma_build_prunes(stored: Seq<Seq<char>>, root: Seq<char>, walked: Seq<Entry>, p: Seq<char>)
    ensures
        ({
            let alive = relative_paths_of(root, indexable_of(walked));
            &&& stale_spec(stored, alive).contains(p) <==> (stored.contains(p) && !alive.contains(p))
            &&& stored.no_duplicates() ==> stale_spec(stored, alive).len()
                == stored.to_set().difference(alive.to_set()).len()
        }),
{
    let alive = relative_paths_of(root, indexable_of(walked));
    lemma_stale_exact(stored, alive, p);
    if stored.no_duplicates() {
        lemma_stale_count(stored, alive);
    }
}

/// A bound parameter of an SQL statement.
#[derive(Debug, Clone, PartialEq, Eq)]
pub enum SqlParam {
    Text(String),
    Int(i64),
}

/// The view of a bound parameter.
pub ghost enum SqlValue {
    Text(Seq<char>),
    Int(i64),
}

impl View for SqlParam {
    type V = SqlValue;

    open spec fn view(&self) -> SqlValue {
        match self {
            SqlParam::Text(s) => SqlValue::Text(s@),
            SqlParam::Int(i) => SqlValue::Int(*i),
        }
    }
}

/// A composed statement and its bound parameters, in order.
#[derive(Debug, Clone)]
pub struct MetadataQuery {
    pub sql: String,
    pub params: Vec<SqlParam>,
}

/// The head of the metadata search.
pub const QUERY_HEAD: &'static str = "SELECT f.path FROM files f LEFT JOIN metadata m ON f.path = m.path WHERE 1=1";
/// The area filter.
pub const AREA_CLAUSE: &'static str = " AND m.area = ?";
/// The tag filter.
pub const TAG_CLAUSE: &'static str = " AND m.tags LIKE ?";
/// The lower date bound.
pub const DATE_FROM_CLAUSE: &'static str = " AND m.date >= ?";
/// The upper date bound.
pub const DATE_TO_CLAUSE: &'static str = " AND m.date <= ?";
/// The order and the limit.
pub const QUERY_TAIL: &'static str = " ORDER BY f.mtime DESC LIMIT ?";

/// `s` when `b` holds, else nothing.
pub open spec fn when(b: bool, s: Seq<char>) -> Seq<char> {
    if b { s } else { seq![] }
}

/// The statement text of a metadata search: it depends only on which filters are given.
pub open spec fn metadata_sql(area: bool, tag: bool, date_from: bool, date_to: bool) -> Seq<char> {
    QUERY_HEAD@ + when(area, AREA_CLAUSE@) + when(tag, TAG_CLAUSE@) + when(date_from, DATE_FROM_CLAUSE@)
        + when(date_to, DATE_TO_CLAUSE@) + QUERY_TAIL@
}

/// The LIKE pattern of a tag: `%"<tag>%`.
pub open spec fn tag_pattern(tag: Seq<char>) -> Seq<char> {
    seq!['%', '"'] + tag + seq!['%']
}

/// A parameter for each given filter, then the limit.
pub open spec fn metadata_params(
    area: Option<Seq<char>>,
    tag: Option<Seq<char>>,
    date_from: Option<Seq<char>>,
    date_to: Option<Seq<char>>,
    limit: i64,
) -> Seq<SqlValue> {
    (match area { Some(a) => seq![SqlValue::Text(a)], None => seq![] })
    + (match tag { Some(t) => seq![SqlValue::Text(tag_pattern(t))], None => seq![] })
    + (match date_from { Some(d) => seq![SqlValue::Text(d)], None => seq![] })
    + (match date_to { Some(d) => seq![SqlValue::Text(d)], None => seq![] })
    + seq![SqlValue::Int(limit)]
}

/// The view of an optional string slice.
pub open spec fn opt_str_view(o: Option<&str>) -> Option<Seq<char>> {
    match o {
        Some(s) => Some(s@),
        None => None,
    }
}

/// The limit as the statement binds it.
pub open spec fn limit_param(limit: usize) -> i64 {
    if limit <= i64::MAX { limit as i64 } else { i64::MAX }
}

/// The LIKE pattern of a tag.
pub fn tag_like_pattern(tag: &str) -> (r: String)
    ensures
        r@ == tag_pattern(tag@),
{
    let mut cs: Vec<char> = Vec::new();
    cs.push('%');
    cs.push('"');
    push_str_chars(&mut cs, tag);
    cs.push('%');
    assert(cs@ =~= tag_pattern(tag@));
    string_of(&cs)
}

/// Composes the metadata search: one filter clause for each given criterion,
/// most recently modified first, at most `limit` rows. Every value is a bound
/// parameter; the statement text never holds any of them.
pub fn build_metadata_query(
    area: Option<&str>,
    tag: Option<&str>,
    date_from: Option<&str>,
    date_to: Option<&str>,
    limit: usize,
) -> (q: MetadataQuery)
    ensures
        q.sql@ == metadata_sql(area.is_some(), tag.is_some(), date_from.is_some(), date_to.is_some()),
        q.params@.map_values(|p: SqlParam| p@) == metadata_params(
            opt_str_view(area),
            opt_str_view(tag),
            opt_str_view(date_from),
            opt_str_view(date_to),
            limit_param(limit),
        ),
{
    let mut sql: Vec<char> = Vec::new();
    let mut params: Vec<SqlParam> = Vec::new();
    push_str_chars(&mut sql, QUERY_HEAD);
    if let Some(a) = area {
        push_str_chars(&mut sql, AREA_CLAUSE);
        params.push(SqlParam::Text(a.to_owned()));
    }
    let ghost params_area = params@.map_values(|p: SqlParam| p@);
    assert(sql@ =~= QUERY_HEAD@ + when(area.is_some(), AREA_CLAUSE@));
    assert(params_area =~= (match opt_str_view(area) { Some(a) => seq![SqlValue::Text(a)], None => seq![] }));
    let ghost sql_area = sql@;
    if let Some(t) = tag {
        push_str_chars(&mut sql, TAG_CLAUSE);
        let pat = tag_like_pattern(t);
        let ghost before = params@;
        params.push(SqlParam::Text(pat));
        assert(params@.map_values(|p: SqlParam| p@) =~= before.map_values(|p: SqlParam| p@).push(SqlValue::Text(tag_pattern(t@))));
    }
    let ghost params_tag = params@.map_values(|p: SqlParam| p@);
    assert(sql@ =~= sql_area + when(tag.is_some(), TAG_CLAUSE@));
    assert(params_tag =~= params_area + (match opt_str_view(tag) { Some(t) => seq![SqlValue::Text(tag_pattern(t))], None => seq![] }));
    let ghost sql_tag = sql@;
    if let Some(d) = date_from {
        push_str_chars(&mut sql, DATE_FROM_CLAUSE);
        let ghost before = params@;
        params.push(SqlParam::Text(d.to_owned()));
        assert(params@.map_values(|p: SqlParam| p@) =~= before.map_values(|p: SqlParam| p@).push(SqlValue::Text(d@)));
    }
    let ghost params_from = params@.map_values(|p: SqlParam| p@);
    assert(sql@ =~= sql_tag + when(date_from.is_some(), DATE_FROM_CLAUSE@));
    assert(params_from =~= params_tag + (match opt_str_view(date_from) { Some(d) => seq![SqlValue::Text(d)], None => seq![] }));
    let ghost sql_from = sql@;
    if let Some(d) = date_to {
        push_str_chars(&mut sql, DATE_TO_CLAUSE);
        let ghost before = params@;
        params.push(SqlParam::Text(d.to_owned()));
        assert(params@.map_values(|p: SqlParam| p@) =~= before.map_values(|p: SqlParam| p@).push(SqlValue::Text(d@)));
    }
    let ghost params_to = params@.map_values(|p: SqlParam| p@);
    assert(sql@ =~= sql_from + when(date_to.is_some(), DATE_TO_CLAUSE@));
    assert(params_to =~= params_from + (match opt_str_view(date_to) { Some(d) => seq![SqlValue::Text(d)], None => seq![] }));
    push_str_chars(&mut sql, QUERY_TAIL);
    let wide: u64 = limit as u64;
    let lim: i64 = if wide <= 9223372036854775807u64 { wide as i64 } else { i64::MAX };
    let ghost before = params@;
    params.push(SqlParam::Int(lim));
    assert(params@.map_values(|p: SqlParam| p@) =~= before.map_values(|p: SqlParam| p@).push(SqlValue::Int(lim)));
    assert(sql@ =~= metadata_sql(area.is_some(), tag.is_some(), date_from.is_some(), date_to.is_some()));
    assert(lim == limit_param(limit));
    assert(params@.map_values(|p: SqlParam| p@) =~= params_to + seq![SqlValue::Int(lim)]);
    MetadataQuery { sql: string_of(&sql), params }
}

/// Injection safety: two metadata searches with the same filters present
/// compose the same statement text, whatever values they carry; the values
/// reach the database only as bound parameters.
pub proof fn lemma_query_text_fixed(
    a1: Option<Seq<char>>, t1: Option<Seq<char>>, f1: Option<Seq<char>>, d1: Option<Seq<char>>,
    a2: Option<Seq<char>>, t2: Option<Seq<char>>, f2: Option<Seq<char>>, d2: Option<Seq<char>>,
)
    requires
        a1.is_some() == a2.is_some(),
        t1.is_some() == t2.is_some(),
        f1.is_some() == f2.is_some(),
        d1.is_some() == d2.is_some(),
    ensures
        metadata_sql(a1.is_some(), t1.is_some(), f1.is_some(), d1.is_some())
            == metadata_sql(a2.is_some(), t2.is_some(), f2.is_some(), d2.is_some()),
{
}

/// The LIKE patterns that select the direct children of a cached directory:
/// the rows to take and, among them, the nested ones to leave out.
pub open spec fn directory_patterns_spec(dir: Seq<char>) -> (Seq<char>, Seq<char>) {
    if dir.len() == 0 {
        (seq!['%'], seq!['%', '/', '%'])
    } else {
        (dir + seq!['/', '%'], dir + seq!['/', '%', '/', '%'])
    }
}

/// The LIKE patterns of a cached directory listing (`""` is the root).
pub fn directory_patterns(dir: &str) -> (r: (String, String))
    ensures
        (r.0@, r.1@) == directory_patterns_spec(dir@),
{
    let d = chars_of(dir);
    let mut inc: Vec<char> = Vec::new();
    let mut exc: Vec<char> = Vec::new();
    if d.len() == 0 {
        inc.push('%');
        exc.push('%');
        exc.push('/');
        exc.push('%');
        assert(inc@ =~= seq!['%']);
        assert(exc@ =~= seq!['%', '/', '%']);
    } else {
        crate::chars::extend_chars(&mut inc, &d);
        inc.push('/');
        inc.push('%');
        crate::chars::extend_chars(&mut exc, &d);
        exc.push('/');
        exc.push('%');
        exc.push('/');
        exc.push('%');
        assert(inc@ =~= dir@ + seq!['/', '%']);
        assert(exc@ =~= dir@ + seq!['/', '%', '/', '%']);
    }
    (string_of(&inc), string_of(&exc))
}

/// The full-text writer's state: at most one writer, open between
/// `begin_write` and `commit` or `rollback`.
#[derive(Debug, Clone, Copy, PartialEq, Eq, Structural)]
pub enum WriterState {
    Idle,
    Open,
}

impl WriterState {
    /// Whether a document may be added or removed now: only with the writer open.
    pub fn require_open(&self) -> (r: Result<(), IndexError>)
        ensures
            r.is_ok() == (*self == WriterState::Open),
            r.is_err() ==> r->Err_0 is InvalidState,
    {
        match self {
            WriterState::Open => Ok(()),
            WriterState::Idle => Err(IndexError::InvalidState("writer not open; call begin_write first".to_owned())),
        }
    }
}

} // verus!
