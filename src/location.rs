//! A Location: a rooted directory tree, its scope classification, path
//! containment and the checks made before every write.
//!
//! Paths are strings with `/` separators. What needs the filesystem (whether
//! a path exists, its canonical form, whether it is a directory) is found by
//! the caller and handed in; the decisions are made here.

use vstd::prelude::*;
use crate::chars::{chars_of, chars_eq, extend_chars, string_of, views};
use crate::ignore::{components, ignored_by, join_path, path_components, IgnoreRules, RuleView};

verus! {

/// The basename of the system directory at a managed Location's root.
pub const FRACTA_DIR: &'static str = ".fracta";

/// The characters of the system directory's basename.
pub open spec fn system_dir_name() -> Seq<char> {
    seq!['.', 'f', 'r', 'a', 'c', 't', 'a']
}

/// The scope of a path within a Location.
#[derive(Debug, Clone, Copy, PartialEq, Eq, Structural)]
pub enum Scope {
    /// Indexing and the other compute features are enabled.
    Managed,
    /// Inside a managed Location but excluded by its ignore rules.
    Ignored,
    /// Not managed: browse and open only.
    Plain,
}

impl Scope {
    /// Whether this scope allows indexing.
    pub fn is_managed(&self) -> (r: bool)
        ensures
            r == (*self == Scope::Managed),
    {
        match self {
            Scope::Managed => true,
            _ => false,
        }
    }
}

/// Whether an entry is a file or a folder.
#[derive(Debug, Clone, Copy, PartialEq, Eq, Structural)]
pub enum EntryKind {
    File,
    Folder,
}

/// A directory child as the filesystem describes it.
#[derive(Debug, Clone)]
pub struct Entry {
    /// Absolute path.
    pub path: String,
    /// File or folder.
    pub kind: EntryKind,
    /// Last component of the path.
    pub name: String,
    /// Lowercase extension without the dot (files only).
    pub extension: Option<String>,
    /// Size in bytes; 0 for folders.
    pub size: u64,
    /// Modification time, nanoseconds since the Unix epoch.
    pub modified: Option<i64>,
    /// Creation time, nanoseconds since the Unix epoch.
    pub created: Option<i64>,
    /// Resolved scope.
    pub scope: Scope,
}

/// Options of a recursive traversal.
#[derive(Debug, Clone, Copy, Default)]
pub struct WalkOptions {
    /// Whether Ignored entries are recorded (they are never descended into otherwise).
    pub include_ignored: bool,
    /// Depth limit; `None` for no limit.
    pub max_depth: Option<usize>,
}

/// The errors of filesystem operations.
#[derive(Debug, Clone, PartialEq, Eq)]
pub enum VfsError {
    NotFound(String),
    AlreadyExists(String),
    PermissionDenied(String),
    OutsideLocation(String),
    IgnoredScope(String),
    AtomicWriteFailed { path: String, reason: String },
    WatcherError(String),
    Io(String),
}

/// Whether `a` is a leading part of `b`.
pub open spec fn is_prefix_of(a: Seq<Seq<char>>, b: Seq<Seq<char>>) -> bool {
    a.len() <= b.len() && b.take(a.len() as int) == a
}

/// The components of `path` below `root`, when `path` lies under `root`.
pub open spec fn relative_components(root: Seq<char>, path: Seq<char>) -> Option<Seq<Seq<char>>> {
    let rc = components(root);
    let pc = components(path);
    if is_prefix_of(rc, pc) {
        Some(pc.skip(rc.len() as int))
    } else {
        None
    }
}

/// Whether relative components start with the system directory.
pub open spec fn in_system_dir(rel: Seq<Seq<char>>) -> bool {
    rel.len() > 0 && rel[0] == system_dir_name()
}

/// The scope of `path`, given whether it is contained in the Location and whether it is a directory.
pub open spec fn scope_spec(
    managed: bool,
    rules: Seq<RuleView>,
    root: Seq<char>,
    path: Seq<char>,
    contained: bool,
    is_dir: bool,
) -> Option<Scope> {
    if !contained {
        None
    } else if !managed {
        Some(Scope::Plain)
    } else {
        match relative_components(root, path) {
            None => Some(Scope::Managed),
            Some(rel) => if rel.len() == 0 || in_system_dir(rel) {
                Some(Scope::Managed)
            } else if ignored_by(rules, join_path(rel), is_dir) {
                Some(Scope::Ignored)
            } else {
                Some(Scope::Managed)
            },
        }
    }
}

/// Relies on `uuid::Uuid::now_v7`: a fresh time-ordered identity.
#[verifier::external_body]
pub(crate) fn new_location_id() -> (r: u128) {
    uuid::Uuid::now_v7().as_u128()
}

/// The system directory's basename, as characters.
fn system_dir_chars() -> (r: Vec<char>)
    ensures
        r@ == system_dir_name(),
{
    let r: Vec<char> = vec!['.', 'f', 'r', 'a', 'c', 't', 'a'];
    assert(r@ =~= system_dir_name());
    r
}

/// Whether a directory entry's name is the system directory's basename;
/// listings and traversals never show such an entry.
pub fn is_system_dir_name(name: &str) -> (r: bool)
    ensures
        r == (name@ == system_dir_name()),
{
    let sd = system_dir_chars();
    chars_eq(&chars_of(name), &sd)
}

/// Whether the components `a` lead the components `b`.
fn components_prefix(a: &Vec<Vec<char>>, b: &Vec<Vec<char>>) -> (r: bool)
    ensures
        r == is_prefix_of(views(a@), views(b@)),
{
    if a.len() > b.len() {
        return false;
    }
    let mut i: usize = 0;
    while i < a.len()
        invariant
            i <= a.len() <= b.len(),
            forall|j: int| 0 <= j < i ==> a@[j]@ == b@[j]@,
        decreases a.len() - i,
    {
        if !chars_eq(&a[i], &b[i]) {
            assert(views(b@).take(a.len() as int)[i as int] != views(a@)[i as int]);
            return false;
        }
        i = i + 1;
    }
    assert(views(b@).take(a.len() as int) =~= views(a@));
    true
}

/// Components `from` onward of `cs`, joined by `/`.
fn join_from(cs: &Vec<Vec<char>>, from: usize) -> (r: Vec<char>)
    requires
        from <= cs.len(),
    ensures
        r@ == join_path(views(cs@).skip(from as int)),
{
    let ghost rest = views(cs@).skip(from as int);
    let mut acc: Vec<char> = Vec::new();
    let mut i: usize = from;
    while i < cs.len()
        invariant
            from <= i <= cs.len(),
            rest == views(cs@).skip(from as int),
            acc@ == join_path(rest.take(i - from)),
        decreases cs.len() - i,
    {
        if i > from {
            acc.push('/');
        }
        extend_chars(&mut acc, &cs[i]);
        assert(rest.take(i - from + 1).drop_last() =~= rest.take(i - from));
        assert(rest.take(i - from + 1).last() == cs@[i as int]@);
        assert(acc@ =~= join_path(rest.take(i - from + 1)));
        i = i + 1;
    }
    assert(rest.take(cs.len() - from) =~= rest);
    acc
}

/// The index of the last `.` in `s`, or -1.
pub open spec fn last_dot(s: Seq<char>) -> int
    decreases s.len(),
{
    if s.len() == 0 {
        -1
    } else if s.last() == '.' {
        s.len() - 1
    } else {
        last_dot(s.drop_last())
    }
}

/// The extension of a file name: what follows its last `.`, unless that `.`
/// starts the name, and none for `..`.
pub open spec fn extension_spec(name: Seq<char>) -> Option<Seq<char>> {
    if name == seq!['.', '.'] || last_dot(name) <= 0 {
        None
    } else {
        Some(name.skip(last_dot(name) + 1))
    }
}

/// The extension of a file name, as `Path::extension` takes it: the part after
/// the last `.`, unless that `.` starts the name.
pub fn file_extension(name: &str) -> (r: Option<String>)
    ensures
        match extension_spec(name@) {
            Some(e) => r.is_some() && r.unwrap()@ == e,
            None => r.is_none(),
        },
{
    let cs = chars_of(name);
    if cs.len() == 2 && cs[0] == '.' && cs[1] == '.' {
        assert(name@ =~= seq!['.', '.']);
        return None;
    }
    let mut found = false;
    let mut d: usize = 0;
    let mut j: usize = 0;
    while j < cs.len()
        invariant
            j <= cs.len(),
            cs@ == name@,
            found ==> d < j && last_dot(cs@.take(j as int)) == d,
            !found ==> last_dot(cs@.take(j as int)) == -1,
        decreases cs.len() - j,
    {
        assert(cs@.take(j + 1).drop_last() =~= cs@.take(j as int));
        if cs[j] == '.' {
            found = true;
            d = j;
        }
        j = j + 1;
    }
    assert(cs@.take(cs.len() as int) =~= name@);
    if !found || d == 0 {
        return None;
    }
    let ext = crate::chars::slice_chars(&cs, d + 1, cs.len());
    assert(ext@ =~= name@.skip(d + 1));
    Some(string_of(&ext))
}

/// `base` followed by each of `pending`, each after a `/`.
pub open spec fn assemble(base: Seq<char>, pending: Seq<Seq<char>>) -> Seq<char>
    decreases pending.len(),
{
    if pending.len() == 0 {
        base
    } else {
        assemble(base, pending.drop_last()) + seq!['/'] + pending.last()
    }
}

/// Whether a path component steps up to the parent.
pub open spec fn is_parent_step(c: Seq<char>) -> bool {
    c == seq!['.', '.']
}

/// The path at which a not-yet-existing path would be created: its canonical
/// existing ancestor followed by the pending components; none when a pending
/// component is `..` or the result would lie outside the canonical root.
pub open spec fn resolve_pending_spec(root: Seq<char>, ancestor: Seq<char>, pending: Seq<Seq<char>>) -> Option<Seq<char>> {
    if exists|j: int| 0 <= j < pending.len() && is_parent_step(#[trigger] pending[j]) {
        None
    } else if is_prefix_of(components(root), components(assemble(ancestor, pending))) {
        Some(assemble(ancestor, pending))
    } else {
        None
    }
}

/// Whether the canonical path `path` lies within the canonical root `root`,
/// component by component.
pub fn path_within(root: &str, path: &str) -> (r: bool)
    ensures
        r == is_prefix_of(components(root@), components(path@)),
{
    let rc = path_components(&chars_of(root));
    let pc = path_components(&chars_of(path));
    components_prefix(&rc, &pc)
}

/// Resolves a path that does not exist yet: `ancestor` is the canonical form
/// of its nearest existing ancestor and `pending` the components below it,
/// outermost first. Any `..` among them is refused, and so is a result
/// outside the canonical root; so an accepted path always lies under the root.
pub fn resolve_pending(root: &str, ancestor: &str, pending: &Vec<String>) -> (r: Option<String>)
    ensures
        match resolve_pending_spec(root@, ancestor@, pending@.map_values(|p: String| p@)) {
            Some(q) => r.is_some() && r.unwrap()@ == q,
            None => r.is_none(),
        },
        r.is_some() ==> is_prefix_of(components(root@), components(r.unwrap()@)),
        r.is_some() ==> forall|j: int| 0 <= j < pending@.len() ==> !is_parent_step(#[trigger] pending@[j]@),
{
    let ghost ps = pending@.map_values(|p: String| p@);
    let mut acc = chars_of(ancestor);
    let mut i: usize = 0;
    while i < pending.len()
        invariant
            i <= pending.len(),
            ps == pending@.map_values(|p: String| p@),
            acc@ == assemble(ancestor@, ps.take(i as int)),
            forall|j: int| 0 <= j < i ==> !is_parent_step(#[trigger] ps[j]),
        decreases pending.len() - i,
    {
        let c = chars_of(pending[i].as_str());
        if c.len() == 2 && c[0] == '.' && c[1] == '.' {
            assert(is_parent_step(ps[i as int])) by {
                assert(c@ =~= seq!['.', '.']);
            }
            return None;
        }
        assert(!is_parent_step(ps[i as int])) by {
            if c@ =~= seq!['.', '.'] {
                assert(c@.len() == 2 && c@[0] == '.' && c@[1] == '.');
            }
        }
        acc.push('/');
        extend_chars(&mut acc, &c);
        assert(ps.take(i + 1).drop_last() =~= ps.take(i as int));
        i = i + 1;
    }
    assert(ps.take(pending.len() as int) =~= ps);
    assert(forall|j: int| 0 <= j < pending@.len() ==> ps[j] == #[trigger] pending@[j]@);
    let assembled = string_of(&acc);
    if path_within(root, assembled.as_str()) {
        Some(assembled)
    } else {
        None
    }
}

/// The Unicode lowercase form of a string, as `str::to_lowercase` gives it.
pub uninterp spec fn lower_of(s: Seq<char>) -> Seq<char>;

/// Relies on `str::to_lowercase`: the result depends on the characters alone.
#[verifier::external_body]
pub(crate) fn lowercase(s: &str) -> (r: String)
    ensures
        r@ == lower_of(s@),
{
    s.to_lowercase()
}

/// The last component of a path, as `Path::file_name` gives it: none for an
/// empty path or one ending in `..`.
pub open spec fn file_name_spec(path: Seq<char>) -> Option<Seq<char>> {
    let cs = components(path);
    if cs.len() == 0 || cs.last() == seq!['.', '.'] {
        None
    } else {
        Some(cs.last())
    }
}

/// The last component of a path.
pub fn file_name(path: &str) -> (r: Option<String>)
    ensures
        opt_string_view(r) == file_name_spec(path@),
{
    let cs = path_components(&chars_of(path));
    if cs.len() == 0 {
        return None;
    }
    let last = &cs[cs.len() - 1];
    assert(views(cs@).last() == last@);
    if last.len() == 2 && last[0] == '.' && last[1] == '.' {
        assert(last@ =~= seq!['.', '.']);
        return None;
    }
    assert(last@ != seq!['.', '.']) by {
        if last@ =~= seq!['.', '.'] {
            assert(last@.len() == 2 && last@[0] == '.' && last@[1] == '.');
        }
    }
    Some(string_of(last))
}

/// The view of an optional string.
pub open spec fn opt_string_view(o: Option<String>) -> Option<Seq<char>> {
    match o {
        Some(s) => Some(s@),
        None => None,
    }
}

/// Whether `a` sorts strictly before `b`, character by character.
pub open spec fn lex_less(a: Seq<char>, b: Seq<char>) -> bool
    decreases a.len(),
{
    if b.len() == 0 {
        false
    } else if a.len() == 0 {
        true
    } else if a[0] != b[0] {
        a[0] < b[0]
    } else {
        lex_less(a.drop_first(), b.drop_first())
    }
}

/// Whether `a` sorts strictly before `b`, character by character.
fn chars_less(a: &Vec<char>, b: &Vec<char>) -> (r: bool)
    ensures
        r == lex_less(a@, b@),
{
    let mut i: usize = 0;
    assert(a@.skip(0) =~= a@);
    assert(b@.skip(0) =~= b@);
    while i < a.len() && i < b.len() && a[i] == b[i]
        invariant
            i <= a.len(),
            i <= b.len(),
            lex_less(a@, b@) == lex_less(a@.skip(i as int), b@.skip(i as int)),
        decreases a.len() - i,
    {
        assert(a@.skip(i as int).drop_first() =~= a@.skip(i + 1));
        assert(b@.skip(i as int).drop_first() =~= b@.skip(i + 1));
        i = i + 1;
    }
    if i == b.len() {
        return false;
    }
    if i == a.len() {
        return true;
    }
    assert(a@.skip(i as int)[0] == a@[i as int]);
    assert(b@.skip(i as int)[0] == b@[i as int]);
    a[i] < b[i]
}

/// Whether entry `a` is listed before entry `b`: folders before files, then
/// by lowercase name.
pub open spec fn listed_before(a: Entry, b: Entry) -> bool {
    if a.kind != b.kind {
        a.kind == EntryKind::Folder
    } else {
        lex_less(lower_of(a.name@), lower_of(b.name@))
    }
}

/// Whether entry `a` is listed before entry `b` in a directory listing.
pub fn listed_before_exec(a: &Entry, b: &Entry) -> (r: bool)
    ensures
        r == listed_before(*a, *b),
{
    if a.kind != b.kind {
        return a.kind == EntryKind::Folder;
    }
    let la = chars_of(lowercase(a.name.as_str()).as_str());
    let lb = chars_of(lowercase(b.name.as_str()).as_str());
    chars_less(&la, &lb)
}

/// Whether an entry found by a traversal is recorded.
pub open spec fn walk_records(scope: Scope, include_ignored: bool) -> bool {
    scope != Scope::Ignored || include_ignored
}

impl WalkOptions {
    /// Whether a traversal at `depth` reads the directory at all.
    pub fn depth_allowed(&self, depth: usize) -> (r: bool)
        ensures
            r == match self.max_depth {
                Some(m) => depth < m,
                None => true,
            },
    {
        match self.max_depth {
            Some(m) => depth < m,
            None => true,
        }
    }

    /// Whether a traversal records an entry of the given scope.
    pub fn records(&self, scope: Scope) -> (r: bool)
        ensures
            r == walk_records(scope, self.include_ignored),
    {
        match scope {
            Scope::Ignored => self.include_ignored,
            _ => true,
        }
    }
}

/// A user-granted directory tree.
#[derive(Debug, Clone)]
pub struct Location {
    /// Stable identity (a time-ordered UUID).
    pub id: u128,
    /// Human label.
    pub label: String,
    /// Absolute root path.
    pub root: String,
    /// Whether the compute layer is enabled.
    pub managed: bool,
    /// Compiled ignore rules.
    pub ignore_rules: IgnoreRules,
}

impl Location {
    /// The Location's ignore rules.
    pub open spec fn rules(&self) -> Seq<RuleView> {
        self.ignore_rules@
    }

    /// An unmanaged Location with a fresh identity and no ignore rules.
    pub fn new(label: String, root: String) -> (r: Self)
        ensures
            r.label == label,
            r.root == root,
            !r.managed,
            r.rules() == Seq::<RuleView>::empty(),
    {
        Location { id: new_location_id(), label, root, managed: false, ignore_rules: IgnoreRules::empty() }
    }

    /// A managed Location with the given identity and rules, as reopened from its settings.
    pub fn opened(id: u128, label: String, root: String, ignore_rules: IgnoreRules) -> (r: Self)
        ensures
            r.id == id,
            r.label == label,
            r.root == root,
            r.managed,
            r.rules() == ignore_rules@,
    {
        Location { id, label, root, managed: true, ignore_rules }
    }

    /// Marks the Location managed and installs its rules, as `init` does once the system directory exists.
    pub fn mark_managed(&mut self, ignore_rules: IgnoreRules)
        ensures
            final(self).managed,
            final(self).rules() == ignore_rules@,
            final(self).id == old(self).id,
            final(self).label == old(self).label,
            final(self).root == old(self).root,
    {
        self.managed = true;
        self.ignore_rules = ignore_rules;
    }

    /// Replaces the ignore rules.
    pub fn set_ignore_rules(&mut self, ignore_rules: IgnoreRules)
        ensures
            final(self).rules() == ignore_rules@,
            final(self).managed == old(self).managed,
            final(self).id == old(self).id,
            final(self).label == old(self).label,
            final(self).root == old(self).root,
    {
        self.ignore_rules = ignore_rules;
    }

    /// The root path.
    pub fn root(&self) -> (r: &String)
        ensures
            r == &self.root,
    {
        &self.root
    }

    /// The label.
    pub fn label(&self) -> (r: &String)
        ensures
            r == &self.label,
    {
        &self.label
    }

    /// Whether the Location is managed.
    pub fn is_managed(&self) -> (r: bool)
        ensures
            r == self.managed,
    {
        self.managed
    }

    /// The path of the system directory.
    pub fn fracta_dir(&self) -> (r: String)
        ensures
            r@ == self.root@ + seq!['/'] + system_dir_name(),
    {
        let mut cs = chars_of(self.root.as_str());
        cs.push('/');
        let sd = system_dir_chars();
        extend_chars(&mut cs, &sd);
        string_of(&cs)
    }

    /// The path of `path` relative to the root, `/`-separated; `None` when it is not under the root.
    pub fn relative_path(&self, path: &str) -> (r: Option<String>)
        ensures
            match relative_components(self.root@, path@) {
                Some(rel) => r.is_some() && r.unwrap()@ == join_path(rel),
                None => r.is_none(),
            },
    {
        let rc = path_components(&chars_of(self.root.as_str()));
        let pc = path_components(&chars_of(path));
        if components_prefix(&rc, &pc) {
            let rel = join_from(&pc, rc.len());
            Some(string_of(&rel))
        } else {
            None
        }
    }

    /// The components of `path` below the root, when it lies under it.
    fn relative_comps(&self, path: &str) -> (r: Option<Vec<Vec<char>>>)
        ensures
            match relative_components(self.root@, path@) {
                Some(rel) => r.is_some() && views(r.unwrap()@) == rel,
                None => r.is_none(),
            },
    {
        let rc = path_components(&chars_of(self.root.as_str()));
        let pc = path_components(&chars_of(path));
        if components_prefix(&rc, &pc) {
            let mut out: Vec<Vec<char>> = Vec::new();
            let mut i: usize = rc.len();
            while i < pc.len()
                invariant
                    rc.len() <= i <= pc.len(),
                    views(out@) == views(pc@).subrange(rc.len() as int, i as int),
                decreases pc.len() - i,
            {
                let c = crate::chars::slice_chars(&pc[i], 0, pc[i].len());
                assert(c@ =~= pc@[i as int]@);
                let ghost before = out@;
                out.push(c);
                assert(views(out@) =~= views(before).push(c@));
                assert(views(out@) =~= views(pc@).subrange(rc.len() as int, i + 1));
                i = i + 1;
            }
            assert(views(pc@).subrange(rc.len() as int, pc.len() as int) =~= views(pc@).skip(rc.len() as int));
            Some(out)
        } else {
            None
        }
    }

    /// The scope of `path`: `None` when it is not contained in the Location,
    /// Plain when the Location is unmanaged, Managed for the root and the
    /// system directory, else Ignored or Managed by the ignore rules.
    /// `contained` and `is_dir` are what the filesystem says of the path.
    pub fn scope_of(&self, path: &str, contained: bool, is_dir: bool) -> (r: Option<Scope>)
        ensures
            r == scope_spec(self.managed, self.rules(), self.root@, path@, contained, is_dir),
    {
        if !contained {
            return None;
        }
        if !self.managed {
            return Some(Scope::Plain);
        }
        match self.relative_comps(path) {
            None => Some(Scope::Managed),
            Some(rel) => {
                if rel.len() == 0 {
                    return Some(Scope::Managed);
                }
                let sd = system_dir_chars();
                if chars_eq(&rel[0], &sd) {
                    return Some(Scope::Managed);
                }
                let joined = join_from(&rel, 0);
                assert(views(rel@).skip(0) =~= views(rel@));
                let rel_str = string_of(&joined);
                if self.ignore_rules.is_ignored(rel_str.as_str(), is_dir) {
                    Some(Scope::Ignored)
                } else {
                    Some(Scope::Managed)
                }
            },
        }
    }

    /// Whether `path` lies in the system directory of this Location.
    pub fn in_fracta_dir(&self, path: &str) -> (r: bool)
        ensures
            r == match relative_components(self.root@, path@) {
                Some(rel) => in_system_dir(rel),
                None => false,
            },
    {
        match self.relative_comps(path) {
            None => false,
            Some(rel) => {
                if rel.len() == 0 {
                    false
                } else {
                    let sd = system_dir_chars();
                    chars_eq(&rel[0], &sd)
                }
            },
        }
    }

    /// The entry of `path` from what the filesystem says of it: whether it
    /// is a directory, its size, its times (nanoseconds since the Unix
    /// epoch) and whether it is contained in the Location. A folder has size
    /// 0 and no extension; a file's extension is lowercased; the scope is
    /// Plain where it cannot be resolved.
    pub fn build_entry(
        &self,
        path: &str,
        is_dir: bool,
        size: u64,
        modified: Option<i64>,
        created: Option<i64>,
        contained: bool,
    ) -> (e: Entry)
        ensures
            e.path@ == path@,
            e.name@ == match file_name_spec(path@) {
                Some(n) => n,
                None => Seq::<char>::empty(),
            },
            e.kind == if is_dir { EntryKind::Folder } else { EntryKind::File },
            is_dir ==> e.extension.is_none() && e.size == 0,
            !is_dir ==> e.size == size && opt_string_view(e.extension) == match extension_spec(e.name@) {
                Some(x) => Some(lower_of(x)),
                None => None,
            },
            e.modified == modified,
            e.created == created,
            e.scope == match scope_spec(self.managed, self.rules(), self.root@, path@, contained, is_dir) {
                Some(s) => s,
                None => Scope::Plain,
            },
    {
        let name = match file_name(path) {
            Some(n) => n,
            None => String::new(),
        };
        let kind = if is_dir { EntryKind::Folder } else { EntryKind::File };
        let extension = if is_dir {
            None
        } else {
            match file_extension(name.as_str()) {
                Some(x) => Some(lowercase(x.as_str())),
                None => None,
            }
        };
        let scope = match self.scope_of(path, contained, is_dir) {
            Some(s) => s,
            None => Scope::Plain,
        };
        Entry {
            path: path.to_owned(),
            kind,
            name,
            extension,
            size: if is_dir { 0 } else { size },
            modified,
            created,
            scope,
        }
    }

    /// The check made before every write: the path must be contained in the
    /// Location (`contained`, as the filesystem resolves it) and must not lie
    /// in the system directory.
    pub fn check_writable(&self, path: &str, contained: bool) -> (r: Result<(), VfsError>)
        ensures
            !contained ==> r.is_err() && r->Err_0 is OutsideLocation,
            contained && (match relative_components(self.root@, path@) {
                Some(rel) => in_system_dir(rel),
                None => false,
            }) ==> r.is_err() && r->Err_0 is PermissionDenied,
            contained && !(match relative_components(self.root@, path@) {
                Some(rel) => in_system_dir(rel),
                None => false,
            }) ==> r.is_ok(),
            r matches Err(VfsError::OutsideLocation(p)) ==> p@ == path@,
            r matches Err(VfsError::PermissionDenied(p)) ==> p@ == path@,
    {
        if !contained {
            return Err(VfsError::OutsideLocation(path.to_owned()));
        }
        if self.in_fracta_dir(path) {
            return Err(VfsError::PermissionDenied(path.to_owned()));
        }
        Ok(())
    }
}

/// Containment: a not-yet-existing path is accepted only when no pending
/// component is `..` and the assembled path lies, component by component,
/// under the canonical root.
pub proof fn lemma_containment(root: Seq<char>, ancestor: Seq<char>, pending: Seq<Seq<char>>)
    ensures
        resolve_pending_spec(root, ancestor, pending) is Some ==> {
            &&& is_prefix_of(components(root), components(resolve_pending_spec(root, ancestor, pending)->Some_0))
            &&& forall|j: int| 0 <= j < pending.len() ==> !is_parent_step(#[trigger] pending[j])
        },
{
}

/// Scope correctness: within a managed Location, a contained path below the
/// root and outside the system directory is Ignored exactly when it or one
/// of its ancestors is ignored by the rules, and Managed otherwise.
pub proof fn lemma_scope_ignored_iff(
    rules: Seq<RuleView>,
    root: Seq<char>,
    path: Seq<char>,
    is_dir: bool,
)
    requires
        relative_components(root, path) is Some,
        relative_components(root, path)->Some_0.len() > 0,
        !in_system_dir(relative_components(root, path)->Some_0),
    ensures
        scope_spec(true, rules, root, path, true, is_dir) == Some(Scope::Ignored)
            <==> ignored_by(rules, join_path(relative_components(root, path)->Some_0), is_dir),
        scope_spec(true, rules, root, path, true, is_dir) == Some(Scope::Ignored)
            || scope_spec(true, rules, root, path, true, is_dir) == Some(Scope::Managed),
{
}

} // verus!
