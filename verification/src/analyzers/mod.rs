//! The analyzers: each extracts one kind of information and writes it into
//! the [`Project`](crate::model::Project). They all read the same list of
//! [`SourceFile`]s and are tolerant: a malformed file never stops the
//! analysis, it only contributes nothing.

pub mod code;
pub mod config;
pub mod csharp;
pub mod database;
pub mod deps;
pub mod docker_compose;
pub mod git;
pub mod java;
pub mod kubernetes;
pub mod openapi;
pub mod stats;
pub mod syntax;
pub mod treesitter;

use vstd::prelude::*;
use crate::node::{Node, SyntaxNode};
use crate::text::{
    has_prefix, lowercase_of, replace, replace_char, string_of_range, to_chars, to_lower,
};

verus! {

/// One file of the project as the analyzers see it: its path and what was
/// read and parsed of it.
pub struct SourceFile {
    /// The path of the file, as found when walking the project folder.
    pub path: String,
    /// The contents, when the file could be read as UTF-8 text.
    pub text: Option<String>,
    /// For `.json`, `.yaml` and `.yml` files: the contents parsed as a JSON
    /// value (YAML is read into the JSON data model).
    pub json: Option<Node>,
    /// For `.yaml` and `.yml` files: the contents parsed as one YAML document.
    pub yaml: Option<Node>,
    /// For `.yaml` and `.yml` files: each YAML document of the file, `None`
    /// for a document that does not parse.
    pub yaml_docs: Vec<Option<Node>>,
    /// For source files of a language the syntax-tree walker reads: their
    /// concrete syntax tree (see [`syntax::parse_sources`]).
    pub syntax: Option<SyntaxNode>,
}

// ---------------------------------------------------------------------------
// Paths
// ---------------------------------------------------------------------------

/// Index of the last occurrence of `c` in `s`.
pub open spec fn last_index_of(s: Seq<char>, c: char) -> Option<int>
    decreases s.len(),
{
    if s.len() == 0 {
        None
    } else if s.last() == c {
        Some(s.len() - 1)
    } else {
        last_index_of(s.drop_last(), c)
    }
}

pub proof fn lemma_last_index_of(s: Seq<char>, c: char)
    ensures
        last_index_of(s, c) matches Some(i) ==> 0 <= i < s.len() && s[i] == c && forall|j: int|
            i < j < s.len() ==> s[j] != c,
        last_index_of(s, c) is None ==> forall|j: int| 0 <= j < s.len() ==> s[j] != c,
    decreases s.len(),
{
    if s.len() > 0 && s.last() != c {
        lemma_last_index_of(s.drop_last(), c);
        assert forall|j: int| 0 <= j < s.len() - 1 implies s[j] == s.drop_last()[j] by {}
    }
}

pub fn last_index_of_char(v: &Vec<char>, c: char) -> (r: Option<usize>)
    ensures
        match r {
            Some(i) => last_index_of(v@, c) == Some(i as int),
            None => last_index_of(v@, c) is None,
        },
{
    let mut j = v.len();
    assert(v@.subrange(0, v.len() as int) =~= v@);
    while j > 0
        invariant
            j <= v.len(),
            last_index_of(v@, c) == last_index_of(v@.subrange(0, j as int), c),
        decreases j,
    {
        if v[j - 1] == c {
            return Some(j - 1);
        }
        assert(v@.subrange(0, j as int).drop_last() =~= v@.subrange(0, j - 1));
        j -= 1;
    }
    None
}

/// A name, or nothing for the parent-directory name `..`.
pub open spec fn unless_parent(name: Seq<char>) -> Seq<char> {
    if name.len() == 2 && name[0] == '.' && name[1] == '.' {
        Seq::empty()
    } else {
        name
    }
}

/// The last component of a path (`Path::file_name`), empty for `..`.
pub open spec fn file_name_of(p: Seq<char>) -> Seq<char> {
    unless_parent(
        match last_index_of(p, '/') {
            Some(i) => p.subrange(i + 1, p.len() as int),
            None => p,
        },
    )
}

/// The extension of a file name (`Path::extension`): what follows its last
/// dot, empty when the name has no dot or its only dot leads the name.
pub open spec fn extension_of(name: Seq<char>) -> Seq<char> {
    match last_index_of(name, '.') {
        Some(i) => if i > 0 {
            name.subrange(i + 1, name.len() as int)
        } else {
            Seq::empty()
        },
        None => Seq::empty(),
    }
}

fn file_name_chars(path: &str) -> (r: (Vec<char>, usize))
    ensures
        r.1 <= r.0@.len(),
        r.0@ == path@,
        file_name_of(path@) == unless_parent(r.0@.subrange(r.1 as int, r.0@.len() as int)),
{
    let v = to_chars(path);
    proof {
        lemma_last_index_of(v@, '/');
    }
    match last_index_of_char(&v, '/') {
        Some(i) => {
            assert(last_index_of(v@, '/') == Some(i as int));
            assert(i < v.len());
            (v, i + 1)
        },
        None => {
            assert(v@.subrange(0, v@.len() as int) =~= v@);
            (v, 0)
        },
    }
}

/// The file name of a path, as text.
pub fn file_name(path: &str) -> (r: String)
    ensures
        r@ == file_name_of(path@),
{
    let (v, start) = file_name_chars(path);
    if v.len() - start == 2 && v[start] == '.' && v[start + 1] == '.' {
        return String::new();
    }
    string_of_range(&v, start, v.len())
}

/// Extension of the file in lower case, without the dot ("" if none).
pub open spec fn ext_of(path: Seq<char>) -> Seq<char> {
    lowercase_of(extension_of(file_name_of(path)))
}

/// Name of the file in lower case ("" if none).
pub open spec fn file_name_lc_of(path: Seq<char>) -> Seq<char> {
    lowercase_of(file_name_of(path))
}

pub fn ext(path: &str) -> (r: String)
    ensures
        r@ == ext_of(path@),
{
    let name = file_name(path);
    let v = to_chars(name.as_str());
    proof {
        lemma_last_index_of(v@, '.');
    }
    let e = match last_index_of_char(&v, '.') {
        Some(i) => if i > 0 {
            string_of_range(&v, i + 1, v.len())
        } else {
            String::new()
        },
        None => String::new(),
    };
    to_lower(e.as_str())
}

pub fn file_name_lc(path: &str) -> (r: String)
    ensures
        r@ == file_name_lc_of(path@),
{
    let name = file_name(path);
    to_lower(name.as_str())
}

/// The path without the prefix `root` (`Path::strip_prefix` at a component
/// boundary), or the path itself when `root` is not a prefix of it.
pub open spec fn strip_root(root: Seq<char>, path: Seq<char>) -> Seq<char> {
    if root.len() == 0 {
        path
    } else if has_prefix(path, root) {
        let rest = path.subrange(root.len() as int, path.len() as int);
        if rest.len() == 0 {
            rest
        } else if rest[0] == '/' {
            skip_slashes(rest)
        } else if root.last() == '/' {
            rest
        } else {
            path
        }
    } else {
        path
    }
}

/// Drops the leading `/` characters.
pub open spec fn skip_slashes(s: Seq<char>) -> Seq<char>
    decreases s.len(),
{
    if s.len() > 0 && s[0] == '/' {
        skip_slashes(s.drop_first())
    } else {
        s
    }
}

/// Path relative to the project root, with `/` as separator.
pub open spec fn rel_of(root: Seq<char>, path: Seq<char>) -> Seq<char> {
    replace_char(strip_root(root, path), '\\', "/"@)
}

pub fn rel(root: &str, path: &str) -> (r: String)
    ensures
        r@ == rel_of(root@, path@),
{
    let rv = to_chars(root);
    let pv = to_chars(path);
    let stripped: String;
    if rv.len() == 0 {
        stripped = path.to_string();
    } else if crate::text::matches_at(&pv, &rv, 0) {
        let n = rv.len();
        assert(pv@.subrange(0, n as int) == rv@);
        if pv.len() == n {
            stripped = String::new();
            assert(pv@.subrange(n as int, pv@.len() as int) =~= Seq::<char>::empty());
        } else if pv[n] == '/' {
            let mut i = n;
            while i < pv.len() && pv[i] == '/'
                invariant
                    n <= i <= pv.len(),
                    skip_slashes(pv@.subrange(n as int, pv@.len() as int)) == skip_slashes(
                        pv@.subrange(i as int, pv@.len() as int),
                    ),
                decreases pv.len() - i,
            {
                assert(pv@.subrange(i as int, pv@.len() as int).drop_first() =~= pv@.subrange(
                    i + 1,
                    pv@.len() as int,
                ));
                i += 1;
            }
            stripped = string_of_range(&pv, i, pv.len());
        } else if rv[n - 1] == '/' {
            stripped = string_of_range(&pv, n, pv.len());
        } else {
            stripped = path.to_string();
        }
    } else {
        stripped = path.to_string();
    }
    replace(stripped.as_str(), '\\', "/")
}

// ---------------------------------------------------------------------------
// Regular expressions
// ---------------------------------------------------------------------------

/// What `regex::Regex::new(pattern)` and then `captures_iter(text)` yield:
/// `None` when the pattern does not compile; otherwise, for each match in
/// order, its capture groups (group 0 is the whole match), `None` for a
/// group that did not take part in the match.
pub uninterp spec fn regex_captures_of(pattern: Seq<char>, text: Seq<char>) -> Option<
    Seq<Seq<Option<Seq<char>>>>,
>;

/// Compiles `pattern` with `regex::Regex::new` and collects every match of
/// `captures_iter` over `text` as its list of groups. The result is named
/// `regex_captures_of`; nothing more is stated of it.
#[verifier::external_body]
pub(crate) fn regex_captures(pattern: &str, text: &str) -> (r: Option<Vec<Vec<Option<String>>>>)
    ensures
        r.deep_view() == regex_captures_of(pattern@, text@),
{
    let re = regex::Regex::new(pattern).ok()?;
    Some(
        re.captures_iter(text).map(
            |c| c.iter().map(|m| m.map(|m| m.as_str().to_string())).collect(),
        ).collect(),
    )
}

/// The groups of the first match (`Regex::captures`), when there is one.
pub open spec fn first_match(pattern: Seq<char>, text: Seq<char>) -> Option<Seq<Option<Seq<char>>>> {
    match regex_captures_of(pattern, text) {
        Some(ms) => if ms.len() > 0 {
            Some(ms[0])
        } else {
            None
        },
        None => None,
    }
}

/// Group `i` of a match, when it took part.
pub open spec fn group(m: Seq<Option<Seq<char>>>, i: int) -> Option<Seq<char>> {
    if 0 <= i < m.len() {
        m[i]
    } else {
        None
    }
}

pub fn group_at(m: &Vec<Option<String>>, i: usize) -> (r: Option<String>)
    ensures
        r.deep_view() == group(m.deep_view(), i as int),
{
    if i < m.len() {
        match &m[i] {
            Some(s) => Some(s.clone()),
            None => None,
        }
    } else {
        None
    }
}

pub fn first_match_of(pattern: &str, text: &str) -> (r: Option<Vec<Option<String>>>)
    ensures
        r.deep_view() == first_match(pattern@, text@),
{
    match regex_captures(pattern, text) {
        Some(ms) => {
            if ms.len() > 0 {
                let mut it = ms;
                let first = it.swap_remove(0);
                Some(first)
            } else {
                None
            }
        },
        None => None,
    }
}

} // verus!
