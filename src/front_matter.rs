//! YAML front matter: the mapping between `---` delimiter lines at the top
//! of a Markdown file. Only a mapping is accepted; typed accessors read its
//! fields. The YAML itself is read by serde_yaml.

use vstd::prelude::*;
use crate::chars::{chars_of, split_chars, split_on, string_of, trim, trim_chars, views, chars_eq};

verus! {

/// Whether serde_yaml reads `yaml` as a mapping.
pub uninterp spec fn yaml_is_mapping(yaml: Seq<char>) -> bool;

/// The string that serde_yaml finds under `key` in the mapping `yaml`, if that field is a string.
pub uninterp spec fn yaml_str(yaml: Seq<char>, key: Seq<char>) -> Option<Seq<char>>;

/// The integer that serde_yaml finds under `key` in the mapping `yaml`, if it is one that fits `i64`.
pub uninterp spec fn yaml_i64(yaml: Seq<char>, key: Seq<char>) -> Option<i64>;

/// The boolean that serde_yaml finds under `key` in the mapping `yaml`, if that field is one.
pub uninterp spec fn yaml_bool(yaml: Seq<char>, key: Seq<char>) -> Option<bool>;

/// The strings that serde_yaml finds under `key` in the mapping `yaml`, if
/// that field is a sequence of strings only.
pub uninterp spec fn yaml_str_list(yaml: Seq<char>, key: Seq<char>) -> Option<Seq<Seq<char>>>;

/// Relies on `serde_yaml::from_str` and `Value::is_mapping`: whether the text parses to a mapping.
#[verifier::external_body]
fn parses_to_mapping(yaml: &str) -> (r: bool)
    ensures
        r == yaml_is_mapping(yaml@),
{
    match serde_yaml::from_str::<serde_yaml::Value>(yaml) {
        Ok(v) => v.is_mapping(),
        Err(_) => false,
    }
}

/// Relies on `serde_yaml::from_str`, `Value::get` and `Value::as_str`: a string field.
#[verifier::external_body]
fn yaml_get_str(yaml: &str, key: &str) -> (r: Option<String>)
    ensures
        match yaml_str(yaml@, key@) {
            Some(s) => r.is_some() && r.unwrap()@ == s,
            None => r.is_none(),
        },
{
    let v: serde_yaml::Value = serde_yaml::from_str(yaml).ok()?;
    v.get(key)?.as_str().map(|s| s.to_string())
}

/// Relies on `serde_yaml::from_str`, `Value::get` and `Value::as_i64`: an integer field.
#[verifier::external_body]
fn yaml_get_i64(yaml: &str, key: &str) -> (r: Option<i64>)
    ensures
        r == yaml_i64(yaml@, key@),
{
    let v: serde_yaml::Value = serde_yaml::from_str(yaml).ok()?;
    v.get(key)?.as_i64()
}

/// Relies on `serde_yaml::from_str`, `Value::get` and `Value::as_bool`: a boolean field.
#[verifier::external_body]
fn yaml_get_bool(yaml: &str, key: &str) -> (r: Option<bool>)
    ensures
        r == yaml_bool(yaml@, key@),
{
    let v: serde_yaml::Value = serde_yaml::from_str(yaml).ok()?;
    v.get(key)?.as_bool()
}

/// Relies on `serde_yaml::from_str`, `Value::get`, `Value::as_sequence` and
/// `Value::as_str`: a field that is a sequence of strings.
#[verifier::external_body]
fn yaml_get_str_list(yaml: &str, key: &str) -> (r: Option<Vec<String>>)
    ensures
        match yaml_str_list(yaml@, key@) {
            Some(l) => r.is_some() && r.unwrap()@.map_values(|s: String| s@) == l,
            None => r.is_none(),
        },
{
    let v: serde_yaml::Value = serde_yaml::from_str(yaml).ok()?;
    let seq = v.get(key)?.as_sequence()?;
    seq.iter().map(|x| x.as_str().map(|s| s.to_string())).collect()
}

/// The lines of `s` as `str::lines` gives them: cut at each `\n`, a `\r`
/// before a `\n` removed, and no empty last line after a final `\n`.
pub open spec fn lines_of(s: Seq<char>) -> Seq<Seq<char>> {
    let ps = split_on(s, '\n');
    let body = ps.drop_last().map_values(|l: Seq<char>| strip_cr(l));
    if ps.last().len() == 0 {
        body
    } else {
        body.push(ps.last())
    }
}

/// `l` without one trailing `\r`.
pub open spec fn strip_cr(l: Seq<char>) -> Seq<char> {
    if l.len() > 0 && l.last() == '\r' {
        l.drop_last()
    } else {
        l
    }
}

/// The delimiter line.
pub open spec fn delimiter() -> Seq<char> {
    seq!['-', '-', '-']
}

/// The lines of `ls` whose trimmed form is not the delimiter.
pub open spec fn non_delimiter_lines(ls: Seq<Seq<char>>) -> Seq<Seq<char>>
    decreases ls.len(),
{
    if ls.len() == 0 {
        seq![]
    } else {
        let rest = non_delimiter_lines(ls.drop_last());
        if trim(ls.last()) == delimiter() {
            rest
        } else {
            rest.push(ls.last())
        }
    }
}

/// Lines joined by `\n`.
pub open spec fn join_lines(ls: Seq<Seq<char>>) -> Seq<char>
    decreases ls.len(),
{
    if ls.len() == 0 {
        seq![]
    } else if ls.len() == 1 {
        ls[0]
    } else {
        join_lines(ls.drop_last()) + seq!['\n'] + ls.last()
    }
}

/// The YAML text of a front matter block: the delimiter lines dropped, the
/// rest joined by newlines and trimmed.
pub open spec fn strip_delimiters_spec(raw: Seq<char>) -> Seq<char> {
    trim(join_lines(non_delimiter_lines(lines_of(raw))))
}

/// A copy of a character vector.
fn copy_chars(v: &Vec<char>) -> (r: Vec<char>)
    ensures
        r@ == v@,
{
    crate::chars::slice_chars(v, 0, v.len())
}

/// Removes the `---` delimiter lines from a front matter block, joins the
/// other lines with newlines and trims the result.
pub fn strip_delimiters(raw: &str) -> (r: String)
    ensures
        r@ == strip_delimiters_spec(raw@),
{
    let cs = chars_of(raw);
    let pieces = split_chars(&cs, '\n');
    let ghost ps = views(pieces@);
    let ghost ls = lines_of(raw@);
    proof {
        crate::chars::lemma_split_on_nonempty(raw@, '\n');
    }
    let n = pieces.len();
    let last_empty = pieces[n - 1].len() == 0;
    let count: usize = if last_empty { n - 1 } else { n };
    let delim: Vec<char> = vec!['-', '-', '-'];
    assert(delim@ =~= delimiter());
    let mut out: Vec<char> = Vec::new();
    let mut kept: usize = 0;
    let ghost mut kept_lines: Seq<Seq<char>> = seq![];
    let mut i: usize = 0;
    assert(ls.len() == count);
    while i < count
        invariant
            i <= count <= n == pieces.len(),
            n >= 1,
            ps == views(pieces@),
            ps == split_on(raw@, '\n'),
            ls == lines_of(raw@),
            ls.len() == count,
            delim@ == delimiter(),
            count == if ps.last().len() == 0 { n - 1 } else { n as int },
            kept_lines == non_delimiter_lines(ls.take(i as int)),
            kept == kept_lines.len(),
            kept <= i,
            out@ == join_lines(kept_lines),
        decreases count - i,
    {
        let mut line = copy_chars(&pieces[i]);
        if i + 1 < n && line.len() > 0 && line[line.len() - 1] == '\r' {
            line.pop();
        }
        assert(line@ == ls[i as int]) by {
            if i + 1 < n {
                assert(ls[i as int] == strip_cr(ps[i as int]));
            } else {
                assert(ls[i as int] == ps.last());
            }
        }
        let t = trim_chars(&line);
        assert(ls.take(i + 1).drop_last() =~= ls.take(i as int));
        if !chars_eq(&t, &delim) {
            if kept > 0 {
                out.push('\n');
            }
            crate::chars::extend_chars(&mut out, &line);
            let ghost old_kept = kept_lines;
            proof {
                kept_lines = kept_lines.push(line@);
            }
            kept = kept + 1;
            assert(kept_lines.drop_last() =~= old_kept);
            assert(kept_lines.last() == line@);
        }
        i = i + 1;
    }
    assert(ls.take(count as int) =~= ls);
    let trimmed = trim_chars(&out);
    string_of(&trimmed)
}

/// Parsed front matter: the YAML text of a mapping.
#[derive(Debug, Clone, PartialEq)]
pub struct FrontMatter {
    /// The YAML text, without the delimiter lines.
    pub raw: String,
}

impl FrontMatter {
    /// Parses a front matter block with its delimiter lines: `None` when the
    /// YAML text is empty or is not a mapping.
    pub fn parse(raw_with_delimiters: &str) -> (r: Option<Self>)
        ensures
            ({
                let yaml = strip_delimiters_spec(raw_with_delimiters@);
                if yaml.len() == 0 || !yaml_is_mapping(yaml) {
                    r.is_none()
                } else {
                    r.is_some() && r.unwrap().raw@ == yaml
                }
            }),
    {
        let yaml = strip_delimiters(raw_with_delimiters);
        let n = chars_of(yaml.as_str()).len();
        if n == 0 {
            return None;
        }
        if !parses_to_mapping(yaml.as_str()) {
            return None;
        }
        Some(FrontMatter { raw: yaml })
    }

    /// A string field.
    pub fn get_str(&self, key: &str) -> (r: Option<String>)
        ensures
            match yaml_str(self.raw@, key@) {
                Some(s) => r.is_some() && r.unwrap()@ == s,
                None => r.is_none(),
            },
    {
        yaml_get_str(self.raw.as_str(), key)
    }

    /// An integer field.
    pub fn get_i64(&self, key: &str) -> (r: Option<i64>)
        ensures
            r == yaml_i64(self.raw@, key@),
    {
        yaml_get_i64(self.raw.as_str(), key)
    }

    /// A boolean field.
    pub fn get_bool(&self, key: &str) -> (r: Option<bool>)
        ensures
            r == yaml_bool(self.raw@, key@),
    {
        yaml_get_bool(self.raw.as_str(), key)
    }

    /// A field holding a sequence of strings; `None` when any item is not a string.
    pub fn get_string_list(&self, key: &str) -> (r: Option<Vec<String>>)
        ensures
            match yaml_str_list(self.raw@, key@) {
                Some(l) => r.is_some() && r.unwrap()@.map_values(|s: String| s@) == l,
                None => r.is_none(),
            },
    {
        yaml_get_str_list(self.raw.as_str(), key)
    }
}

} // verus!
