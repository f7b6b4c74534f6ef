//! Gitignore-dialect ignore rules.
//!
//! Blank lines and lines starting with `#` are skipped. A rule is an optional
//! `!` (negation), the pattern, and an optional trailing `/` (directories
//! only). A pattern that starts with `/` or holds a `/` is anchored to the
//! root; any other pattern matches at every depth (`**/` is put in front).

use vstd::prelude::*;
use crate::chars::{
    chars_of, contains_char, split_chars, split_on, string_of, trim, trim_chars, views,
    slice_chars, extend_chars,
};

verus! {

/// Whether globset accepts `pattern` as a glob and compiles it into a matcher.
pub uninterp spec fn glob_valid(pattern: Seq<char>) -> bool;

/// Whether the glob set that globset builds from the single glob `pattern`
/// matches `path`; false when globset refuses or cannot compile the pattern.
pub uninterp spec fn glob_matches(pattern: Seq<char>, path: Seq<char>) -> bool;

/// The longest glob kept, in characters. Longer rules are dropped: globset
/// indexes the automaton of a glob's literal part with 31-bit state numbers,
/// and a glob of at most this many characters (four bytes each at most)
/// stays well inside that range.
pub const MAX_GLOB_LEN: usize = 268435456;

/// Relies on `globset::Glob::new` and `GlobSetBuilder::build`: whether the
/// pattern parses and its matcher compiles; both report failure as an error.
#[verifier::external_body]
fn glob_compiles(pattern: &str) -> (r: bool)
    requires
        pattern@.len() <= MAX_GLOB_LEN,
    ensures
        r == glob_valid(pattern@),
{
    match globset::Glob::new(pattern) {
        Ok(g) => globset::GlobSetBuilder::new().add(g).build().is_ok(),
        Err(_) => false,
    }
}

/// Relies on `globset::Glob::new`, `GlobSetBuilder::build` and
/// `GlobSet::is_match`: whether the glob matches the path.
#[verifier::external_body]
fn glob_is_match(pattern: &str, path: &str) -> (r: bool)
    requires
        pattern@.len() <= MAX_GLOB_LEN,
    ensures
        r == glob_matches(pattern@, path@),
{
    let g = match globset::Glob::new(pattern) {
        Ok(g) => g,
        Err(_) => return false,
    };
    match globset::GlobSetBuilder::new().add(g).build() {
        Ok(set) => set.is_match(path),
        Err(_) => false,
    }
}

/// The rules applied to every managed Location unless it has its own.
pub const DEFAULT_IGNORE: &'static str = "# Default ignore rules\n# Syntax follows .gitignore conventions\n\n# Version control\n.git/\n\n# macOS system files\n.DS_Store\n.Spotlight-V100/\n.Trashes/\n.fseventsd/\n._*\n\n# Common build artifacts\nnode_modules/\ntarget/\nbuild/\ndist/\n.cache/\n\n# IDE and editor\n.idea/\n.vscode/\n*.swp\n*.swo\n*~\n";

/// One compiled rule.
#[derive(Debug, Clone)]
pub struct Rule {
    /// The glob that the rule matches with.
    pub glob: String,
    /// Whether a match un-ignores.
    pub negated: bool,
    /// Whether the rule applies to directories only.
    pub dir_only: bool,
}

/// The mathematical form of a rule.
pub ghost struct RuleView {
    pub glob: Seq<char>,
    pub negated: bool,
    pub dir_only: bool,
}

impl View for Rule {
    type V = RuleView;

    open spec fn view(&self) -> RuleView {
        RuleView { glob: self.glob@, negated: self.negated, dir_only: self.dir_only }
    }
}

/// An ordered set of compiled rules.
#[derive(Debug)]
pub struct IgnoreRules {
    rules: Vec<Rule>,
}

impl IgnoreRules {
    /// Every kept glob is at most `MAX_GLOB_LEN` characters long.
    #[verifier::type_invariant]
    spec fn globs_bounded(self) -> bool {
        forall|i: int| 0 <= i < self.rules@.len() ==> #[trigger] self.rules@[i].glob@.len() <= MAX_GLOB_LEN
    }
}

impl View for IgnoreRules {
    type V = Seq<RuleView>;

    closed spec fn view(&self) -> Seq<RuleView> {
        self.rules@.map_values(|r: Rule| r@)
    }
}

/// The glob, negation and directory-only flag that a trimmed rule line denotes.
pub open spec fn rule_parts(line: Seq<char>) -> RuleView {
    let negated = line.len() > 0 && line[0] == '!';
    let unnegated = if negated { line.drop_first() } else { line };
    let dir_only = unnegated.len() > 0 && unnegated.last() == '/';
    let body = if dir_only { unnegated.drop_last() } else { unnegated };
    let anchored = body.len() > 0 && body[0] == '/';
    let stripped = if anchored { body.drop_first() } else { body };
    let glob = if anchored || stripped.contains('/') {
        stripped
    } else {
        seq!['*', '*', '/'] + stripped
    };
    RuleView { glob, negated, dir_only }
}

/// The rule a trimmed line compiles to: none where the glob is longer than
/// `MAX_GLOB_LEN` or globset refuses it.
pub open spec fn compile_line(line: Seq<char>) -> Option<RuleView> {
    if rule_parts(line).glob.len() <= MAX_GLOB_LEN && glob_valid(rule_parts(line).glob) {
        Some(rule_parts(line))
    } else {
        None
    }
}

/// Whether a trimmed line is blank or a comment.
pub open spec fn is_skipped_line(t: Seq<char>) -> bool {
    t.len() == 0 || t[0] == '#'
}

/// The rules of a sequence of lines, in order.
pub open spec fn rules_of_lines(ls: Seq<Seq<char>>) -> Seq<RuleView>
    decreases ls.len(),
{
    if ls.len() == 0 {
        seq![]
    } else {
        let rest = rules_of_lines(ls.drop_last());
        let t = trim(ls.last());
        if is_skipped_line(t) {
            rest
        } else {
            match compile_line(t) {
                Some(r) => rest.push(r),
                None => rest,
            }
        }
    }
}

/// The rules of a text in the gitignore dialect.
pub open spec fn rules_of_text(content: Seq<char>) -> Seq<RuleView> {
    rules_of_lines(split_on(content, '\n'))
}

/// Whether `rules` ignore `path`, looking at that path alone: the last rule
/// that applies and matches decides; with none, it is not ignored.
pub open spec fn rules_verdict(rules: Seq<RuleView>, path: Seq<char>, is_dir: bool) -> bool
    decreases rules.len(),
{
    if rules.len() == 0 {
        false
    } else {
        let r = rules.last();
        if (!r.dir_only || is_dir) && glob_matches(r.glob, path) {
            !r.negated
        } else {
            rules_verdict(rules.drop_last(), path, is_dir)
        }
    }
}

/// The pieces of a slash-separated path that name something: empty and `.` pieces are dropped.
pub open spec fn keep_components(ps: Seq<Seq<char>>) -> Seq<Seq<char>>
    decreases ps.len(),
{
    if ps.len() == 0 {
        seq![]
    } else {
        let rest = keep_components(ps.drop_last());
        if ps.last().len() == 0 || ps.last() == seq!['.'] {
            rest
        } else {
            rest.push(ps.last())
        }
    }
}

/// The components of a relative path.
pub open spec fn components(path: Seq<char>) -> Seq<Seq<char>> {
    keep_components(split_on(path, '/'))
}

/// Components joined by `/`.
pub open spec fn join_path(cs: Seq<Seq<char>>) -> Seq<char>
    decreases cs.len(),
{
    if cs.len() == 0 {
        seq![]
    } else if cs.len() == 1 {
        cs[0]
    } else {
        join_path(cs.drop_last()) + seq!['/'] + cs.last()
    }
}

/// Whether the rules ignore the first `k` components, a directory unless they are all of them.
pub open spec fn prefix_ignored(rules: Seq<RuleView>, cs: Seq<Seq<char>>, k: int, is_dir: bool) -> bool {
    rules_verdict(rules, join_path(cs.take(k)), if k == cs.len() { is_dir } else { true })
}

/// Whether `rules` ignore `path`: some prefix of it, root to leaf, is ignored by
/// the rules, where every prefix but the whole path counts as a directory.
pub open spec fn ignored_by(rules: Seq<RuleView>, path: Seq<char>, is_dir: bool) -> bool {
    let cs = components(path);
    exists|k: int| 1 <= k <= cs.len() && #[trigger] prefix_ignored(rules, cs, k, is_dir)
}

/// The components of `path`, as `components` gives them.
pub(crate) fn path_components(path: &Vec<char>) -> (r: Vec<Vec<char>>)
    ensures
        views(r@) == components(path@),
{
    let pieces = split_chars(path, '/');
    let mut out: Vec<Vec<char>> = Vec::new();
    let mut i: usize = 0;
    while i < pieces.len()
        invariant
            i <= pieces.len(),
            views(pieces@) == split_on(path@, '/'),
            views(out@) == keep_components(views(pieces@).take(i as int)),
        decreases pieces.len() - i,
    {
        let p = &pieces[i];
        let dot: bool = p.len() == 1 && p[0] == '.';
        assert(views(pieces@).take(i + 1).drop_last() =~= views(pieces@).take(i as int));
        assert(views(pieces@).take(i + 1).last() == p@);
        if p.len() == 0 || dot {
            assert(dot ==> p@ =~= seq!['.']);
        } else {
            assert(p@ != seq!['.']) by {
                if p@ =~= seq!['.'] {
                    assert(p@.len() == 1 && p@[0] == '.');
                }
            }
            let q = slice_chars(p, 0, p.len());
            assert(q@ =~= p@);
            out.push(q);
            assert(views(out@) =~= views(out@.drop_last()).push(q@));
        }
        i = i + 1;
    }
    assert(views(pieces@).take(pieces.len() as int) =~= views(pieces@));
    out
}

impl IgnoreRules {
    /// A ruleset that ignores nothing.
    pub fn empty() -> (r: Self)
        ensures
            r@ == Seq::<RuleView>::empty(),
    {
        let r = IgnoreRules { rules: Vec::new() };
        assert(r@ =~= Seq::<RuleView>::empty());
        r
    }

    /// The number of rules.
    pub fn len(&self) -> (n: usize)
        ensures
            n == self@.len(),
    {
        self.rules.len()
    }

    /// Compiles the rules of a text in the gitignore dialect, in order; lines
    /// whose glob globset refuses are dropped.
    pub fn parse(content: &str) -> (r: Self)
        ensures
            r@ == rules_of_text(content@),
    {
        let cs = chars_of(content);
        let lines = split_chars(&cs, '\n');
        let mut rules: Vec<Rule> = Vec::new();
        let mut i: usize = 0;
        while i < lines.len()
            invariant
                i <= lines.len(),
                views(lines@) == split_on(content@, '\n'),
                rules@.map_values(|r: Rule| r@) == rules_of_lines(views(lines@).take(i as int)),
                forall|j: int| 0 <= j < rules@.len() ==> #[trigger] rules@[j].glob@.len() <= MAX_GLOB_LEN,
            decreases lines.len() - i,
        {
            let t = trim_chars(&lines[i]);
            assert(views(lines@).take(i + 1).drop_last() =~= views(lines@).take(i as int));
            assert(views(lines@).take(i + 1).last() == lines@[i as int]@);
            if t.len() == 0 || t[0] == '#' {
            } else {
                match Self::compile_rule(&t) {
                    Some(rule) => {
                        let ghost before = rules@;
                        assert(rule.glob@.len() <= MAX_GLOB_LEN);
                        rules.push(rule);
                        assert(forall|j: int| 0 <= j < before.len() ==> rules@[j] == before[j]);
                        assert(rules@.map_values(|r: Rule| r@) =~= before.map_values(|r: Rule| r@).push(rule@));
                    },
                    None => {},
                }
            }
            i = i + 1;
        }
        assert(views(lines@).take(lines.len() as int) =~= views(lines@));
        assert(forall|j: int| 0 <= j < rules@.len() ==> #[trigger] rules@[j].glob@.len() <= MAX_GLOB_LEN);
        IgnoreRules { rules }
    }

    /// Compiles one trimmed, non-blank, non-comment line.
    fn compile_rule(line: &Vec<char>) -> (r: Option<Rule>)
        ensures
            match compile_line(line@) {
                Some(v) => r.is_some() && r.unwrap()@ == v,
                None => r.is_none(),
            },
    {
        let negated: bool = line.len() > 0 && line[0] == '!';
        let unnegated = if negated { slice_chars(line, 1, line.len()) } else { slice_chars(line, 0, line.len()) };
        let dir_only: bool = unnegated.len() > 0 && unnegated[unnegated.len() - 1] == '/';
        let body = if dir_only { slice_chars(&unnegated, 0, unnegated.len() - 1) } else { slice_chars(&unnegated, 0, unnegated.len()) };
        let anchored: bool = body.len() > 0 && body[0] == '/';
        let stripped = if anchored { slice_chars(&body, 1, body.len()) } else { slice_chars(&body, 0, body.len()) };
        let has_slash = contains_char(&stripped, '/');
        let mut glob: Vec<char> = Vec::new();
        if !(anchored || has_slash) {
            glob.push('*');
            glob.push('*');
            glob.push('/');
        }
        extend_chars(&mut glob, &stripped);
        proof {
            let l = line@;
            assert(negated ==> unnegated@ =~= l.drop_first());
            assert(!negated ==> unnegated@ =~= l);
            assert(dir_only ==> body@ =~= unnegated@.drop_last());
            assert(!dir_only ==> body@ =~= unnegated@);
            assert(anchored ==> stripped@ =~= body@.drop_first());
            assert(!anchored ==> stripped@ =~= body@);
            assert(!(anchored || has_slash) ==> glob@ =~= seq!['*', '*', '/'] + stripped@);
            assert((anchored || has_slash) ==> glob@ =~= stripped@);
        }
        if glob.len() > MAX_GLOB_LEN {
            return None;
        }
        let glob_str = string_of(&glob);
        if glob_compiles(glob_str.as_str()) {
            Some(Rule { glob: glob_str, negated, dir_only })
        } else {
            None
        }
    }

    /// Whether the rules ignore `rel_path` itself, with no look at its ancestors.
    pub fn matches_rules(&self, rel_path: &str, is_dir: bool) -> (r: bool)
        ensures
            r == rules_verdict(self@, rel_path@, is_dir),
    {
        let mut ignored = false;
        let mut i: usize = 0;
        while i < self.rules.len()
            invariant
                i <= self.rules.len(),
                ignored == rules_verdict(self@.take(i as int), rel_path@, is_dir),
            decreases self.rules.len() - i,
        {
            proof {
                use_type_invariant(self);
            }
            let rule = &self.rules[i];
            assert(rule.glob@.len() <= MAX_GLOB_LEN);
            assert(self@.take(i + 1).drop_last() =~= self@.take(i as int));
            assert(self@.take(i + 1).last() == rule@);
            if !(rule.dir_only && !is_dir) {
                if glob_is_match(rule.glob.as_str(), rel_path) {
                    ignored = !rule.negated;
                }
            }
            i = i + 1;
        }
        assert(self@.take(self.rules.len() as int) =~= self@);
        ignored
    }

    /// Whether `rel_path` (relative to the Location root) is ignored: it, or
    /// one of its ancestor directories, is ignored by the rules. `is_dir` says
    /// whether the path itself is a directory.
    pub fn is_ignored(&self, rel_path: &str, is_dir: bool) -> (r: bool)
        ensures
            r == ignored_by(self@, rel_path@, is_dir),
    {
        let pc = chars_of(rel_path);
        let comps = path_components(&pc);
        let n = comps.len();
        let ghost cs = components(rel_path@);
        let mut acc: Vec<char> = Vec::new();
        let mut k: usize = 0;
        while k < n
            invariant
                k <= n == comps.len() == cs.len(),
                views(comps@) == cs,
                cs == components(rel_path@),
                acc@ == join_path(cs.take(k as int)),
                forall|j: int| 1 <= j <= k ==> !#[trigger] prefix_ignored(self@, cs, j, is_dir),
            decreases n - k,
        {
            if k > 0 {
                acc.push('/');
            }
            extend_chars(&mut acc, &comps[k]);
            assert(cs.take(k + 1).drop_last() =~= cs.take(k as int));
            assert(cs[k as int] == comps@[k as int]@);
            assert(acc@ =~= join_path(cs.take(k + 1)));
            k = k + 1;
            let check_is_dir = if k == n { is_dir } else { true };
            let acc_str = string_of(&acc);
            if self.matches_rules(acc_str.as_str(), check_is_dir) {
                assert(prefix_ignored(self@, cs, k as int, is_dir));
                return true;
            }
        }
        false
    }
}

impl Clone for IgnoreRules {
    /// A copy of the rules, one by one.
    fn clone(&self) -> (r: Self)
        ensures
            r@ == self@,
    {
        proof {
            use_type_invariant(self);
        }
        let mut rules: Vec<Rule> = Vec::new();
        let mut i: usize = 0;
        while i < self.rules.len()
            invariant
                i <= self.rules.len(),
                forall|j: int| 0 <= j < self.rules@.len() ==> #[trigger] self.rules@[j].glob@.len() <= MAX_GLOB_LEN,
                rules@.map_values(|r: Rule| r@) == self@.take(i as int),
                forall|j: int| 0 <= j < rules@.len() ==> #[trigger] rules@[j].glob@.len() <= MAX_GLOB_LEN,
            decreases self.rules.len() - i,
        {
            let src = &self.rules[i];
            let copy = Rule { glob: src.glob.clone(), negated: src.negated, dir_only: src.dir_only };
            let ghost before = rules@;
            rules.push(copy);
            assert(forall|j: int| 0 <= j < before.len() ==> rules@[j] == before[j]);
            assert(rules@.map_values(|r: Rule| r@) =~= before.map_values(|r: Rule| r@).push(copy@));
            assert(self@.take(i + 1) =~= self@.take(i as int).push(self@[i as int]));
            i = i + 1;
        }
        assert(self@.take(self.rules.len() as int) =~= self@);
        IgnoreRules { rules }
    }
}

impl Default for IgnoreRules {
    /// The built-in ruleset.
    fn default() -> (r: Self)
        ensures
            r@ == rules_of_text(DEFAULT_IGNORE@),
    {
        Self::parse(DEFAULT_IGNORE)
    }
}

} // verus!
