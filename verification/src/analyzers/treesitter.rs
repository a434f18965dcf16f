//! Symbols from concrete syntax trees: types, methods and calls, for several
//! languages. From them an intra-language call graph is rebuilt (relation
//! `Calls`), the base of the application-flow analysis.
//!
//! Coverage: C#/Java/TypeScript/Python give types, methods and call graph;
//! Go gives types. The trees come from [`super::syntax`]; a file that does
//! not parse blocks nothing.

use vstd::prelude::*;
use super::{SourceFile, ext, ext_of, rel, rel_of};
use super::code::{lemma_push_all_unique_append, push_all, push_all_unique, push_unique, push_unique_spec, with_components};
use crate::model::{Component, ComponentKind, ComponentV, Language, Project, ProjectV, Relation, RelationKind, RelationV, components_view, relations_view};
use crate::node::{SyntaxNode, child_by_field, child_by_field_name};
use crate::ordered::{ins_key, insert_key, insert_pair, pair_set_of, pairs_view};
use crate::text::{concat2, copy_strings, flatten, lemma_flatten_take, lemma_map_push, seq_lt, str_eq, str_lt, vec_contains, views, lemma_lt_irreflexive};

verus! {

broadcast use vstd::seq_lib::group_seq_properties;

/// A language the syntax-tree walker reads.
#[derive(Clone, Copy, Debug, PartialEq, Eq, Structural)]
pub enum Lang {
    CSharp,
    Java,
    TypeScript,
    Python,
    Go,
}

pub open spec fn lang_language(l: Lang) -> Language {
    match l {
        Lang::CSharp => Language::CSharp,
        Lang::Java => Language::Java,
        Lang::TypeScript => Language::TypeScript,
        Lang::Python => Language::Python,
        Lang::Go => Language::Go,
    }
}

pub open spec fn lang_ext(l: Lang) -> Seq<char> {
    match l {
        Lang::CSharp => "cs"@,
        Lang::Java => "java"@,
        Lang::TypeScript => "ts"@,
        Lang::Python => "py"@,
        Lang::Go => "go"@,
    }
}

pub open spec fn lang_prefix(l: Lang) -> Seq<char> {
    lang_ext(l)
}

/// Node kinds of the namespace/package container (none for TypeScript and
/// Python).
pub open spec fn lang_container_kinds(l: Lang) -> Seq<Seq<char>> {
    match l {
        Lang::CSharp => seq!["namespace_declaration"@, "file_scoped_namespace_declaration"@],
        Lang::Java => seq!["package_declaration"@],
        Lang::Go => seq!["package_clause"@],
        _ => Seq::empty(),
    }
}

/// Node kind of a method call.
pub open spec fn lang_invocation(l: Lang) -> Seq<char> {
    match l {
        Lang::CSharp => "invocation_expression"@,
        Lang::Java | Lang::Go => "method_invocation"@,
        Lang::TypeScript => "call_expression"@,
        Lang::Python => "call"@,
    }
}

/// Granularity of the component a declaration node stands for.
pub open spec fn lang_type_kind(l: Lang, k: Seq<char>) -> Option<ComponentKind> {
    match l {
        Lang::CSharp => if k == "class_declaration"@ || k == "record_declaration"@ || k
            == "struct_declaration"@ {
            Some(ComponentKind::Class)
        } else if k == "interface_declaration"@ {
            Some(ComponentKind::Interface)
        } else {
            None
        },
        Lang::Java => if k == "class_declaration"@ || k == "enum_declaration"@ {
            Some(ComponentKind::Class)
        } else if k == "interface_declaration"@ {
            Some(ComponentKind::Interface)
        } else {
            None
        },
        Lang::TypeScript => if k == "class_declaration"@ {
            Some(ComponentKind::Class)
        } else if k == "interface_declaration"@ {
            Some(ComponentKind::Interface)
        } else {
            None
        },
        Lang::Python => if k == "class_definition"@ {
            Some(ComponentKind::Class)
        } else {
            None
        },
        Lang::Go => None,
    }
}

/// Whether a node kind declares a method.
pub open spec fn lang_is_method(l: Lang, k: Seq<char>) -> bool {
    match l {
        Lang::CSharp | Lang::Java => k == "method_declaration"@,
        Lang::TypeScript => k == "method_definition"@,
        Lang::Python => k == "function_definition"@,
        Lang::Go => false,
    }
}

impl Lang {
    pub fn model_language(self) -> (r: Language)
        ensures
            r == lang_language(self),
    {
        match self {
            Lang::CSharp => Language::CSharp,
            Lang::Java => Language::Java,
            Lang::TypeScript => Language::TypeScript,
            Lang::Python => Language::Python,
            Lang::Go => Language::Go,
        }
    }

    pub fn file_ext(self) -> (r: &'static str)
        ensures
            r@ == lang_ext(self),
    {
        match self {
            Lang::CSharp => "cs",
            Lang::Java => "java",
            Lang::TypeScript => "ts",
            Lang::Python => "py",
            Lang::Go => "go",
        }
    }

    pub fn id_prefix(self) -> (r: &'static str)
        ensures
            r@ == lang_prefix(self),
    {
        match self {
            Lang::CSharp => "cs",
            Lang::Java => "java",
            Lang::TypeScript => "ts",
            Lang::Python => "py",
            Lang::Go => "go",
        }
    }

    /// Node kinds of the namespace/package container.
    pub fn container_kinds(self) -> (r: Vec<&'static str>)
        ensures
            r@.map_values(|s: &'static str| s@) == lang_container_kinds(self),
    {
        let mut r: Vec<&'static str> = Vec::new();
        match self {
            Lang::CSharp => {
                r.push("namespace_declaration");
                r.push("file_scoped_namespace_declaration");
            },
            Lang::Java => {
                r.push("package_declaration");
            },
            Lang::Go => {
                r.push("package_clause");
            },
            _ => {},
        }
        assert(r@.map_values(|s: &'static str| s@) =~= lang_container_kinds(self));
        r
    }

    /// Whether `k` is one of the container kinds.
    pub fn is_container(self, k: &str) -> (b: bool)
        ensures
            b == lang_container_kinds(self).contains(k@),
    {
        let ks = self.container_kinds();
        let mut i: usize = 0;
        while i < ks.len()
            invariant
                i <= ks@.len(),
                ks@.map_values(|s: &'static str| s@) == lang_container_kinds(self),
                forall|j: int| 0 <= j < i ==> #[trigger] ks@[j]@ != k@,
            decreases ks@.len() - i,
        {
            if str_eq(ks[i], k) {
                assert(lang_container_kinds(self)[i as int] == k@);
                return true;
            }
            i += 1;
        }
        assert(!lang_container_kinds(self).contains(k@)) by {
            if lang_container_kinds(self).contains(k@) {
                let j = choose|j: int|
                    0 <= j < lang_container_kinds(self).len() && lang_container_kinds(self)[j] == k@;
                assert(ks@[j]@ == k@);
            }
        }
        false
    }

    pub fn invocation_kind(self) -> (r: &'static str)
        ensures
            r@ == lang_invocation(self),
    {
        match self {
            Lang::CSharp => "invocation_expression",
            Lang::Java | Lang::Go => "method_invocation",
            Lang::TypeScript => "call_expression",
            Lang::Python => "call",
        }
    }

    pub fn type_kind(self, k: &str) -> (r: Option<ComponentKind>)
        ensures
            r == lang_type_kind(self, k@),
    {
        match self {
            Lang::CSharp => if str_eq(k, "class_declaration") || str_eq(k, "record_declaration")
                || str_eq(k, "struct_declaration") {
                Some(ComponentKind::Class)
            } else if str_eq(k, "interface_declaration") {
                Some(ComponentKind::Interface)
            } else {
                None
            },
            Lang::Java => if str_eq(k, "class_declaration") || str_eq(k, "enum_declaration") {
                Some(ComponentKind::Class)
            } else if str_eq(k, "interface_declaration") {
                Some(ComponentKind::Interface)
            } else {
                None
            },
            Lang::TypeScript => if str_eq(k, "class_declaration") {
                Some(ComponentKind::Class)
            } else if str_eq(k, "interface_declaration") {
                Some(ComponentKind::Interface)
            } else {
                None
            },
            Lang::Python => if str_eq(k, "class_definition") {
                Some(ComponentKind::Class)
            } else {
                None
            },
            Lang::Go => None,
        }
    }

    pub fn is_method(self, k: &str) -> (b: bool)
        ensures
            b == lang_is_method(self, k@),
    {
        match self {
            Lang::CSharp | Lang::Java => str_eq(k, "method_declaration"),
            Lang::TypeScript => str_eq(k, "method_definition"),
            Lang::Python => str_eq(k, "function_definition"),
            Lang::Go => false,
        }
    }
}

// ---------------------------------------------------------------------------
// The namespace or package of a file
// ---------------------------------------------------------------------------

/// The first child of kind `package_identifier`, by its text.
pub open spec fn package_identifier(cs: Seq<SyntaxNode>) -> Option<Seq<char>>
    decreases cs.len(),
{
    if cs.len() == 0 {
        None
    } else if cs[0].kind@ == "package_identifier"@ {
        Some(cs[0].text@)
    } else {
        package_identifier(cs.drop_first())
    }
}

/// The name a container node gives: for Go its package identifier, for the
/// others its `name` field.
pub open spec fn container_name(c: SyntaxNode, l: Lang) -> Option<Seq<char>> {
    if !lang_container_kinds(l).contains(c.kind@) {
        None
    } else if l == Lang::Go {
        package_identifier(c.children@)
    } else {
        match child_by_field(c, "name"@) {
            Some(n) => Some(n.text@),
            None => None,
        }
    }
}

/// The first namespace/package found under `n`, children in order, each
/// child tried before its own subtree.
pub open spec fn find_container_spec(n: SyntaxNode, l: Lang) -> Option<Seq<char>>
    decreases n, 0nat,
{
    find_container_in(n.children@, l)
}

pub open spec fn find_container_in(cs: Seq<SyntaxNode>, l: Lang) -> Option<Seq<char>>
    decreases cs, cs.len(),
{
    if cs.len() == 0 {
        None
    } else {
        match container_name(cs[0], l) {
            Some(name) => Some(name),
            None => match find_container_spec(cs[0], l) {
                Some(name) => Some(name),
                None => find_container_in(cs.subrange(1, cs.len() as int), l),
            },
        }
    }
}

pub open spec fn opt_text(o: Option<SyntaxNode>) -> Option<Seq<char>> {
    match o {
        Some(n) => Some(n.text@),
        None => None,
    }
}

/// Finds the first namespace/package of a tree (see [`find_container_spec`]).
pub fn find_container(node: &SyntaxNode, lang: Lang) -> (r: Option<String>)
    ensures
        match r {
            Some(s) => find_container_spec(*node, lang) == Some(s@),
            None => find_container_spec(*node, lang) is None,
        },
    decreases node, 0nat,
{
    let cs = &node.children;
    let mut i: usize = 0;
    assert(cs@.subrange(0, cs@.len() as int) =~= cs@);
    while i < cs.len()
        invariant
            cs@ == node.children@,
            i <= cs@.len(),
            find_container_spec(*node, lang) == find_container_in(
                cs@.subrange(i as int, cs@.len() as int),
                lang,
            ),
        decreases cs@.len() - i,
    {
        let c = &cs[i];
        let ghost rest = cs@.subrange(i as int, cs@.len() as int);
        assert(rest[0] == *c);
        assert(rest.subrange(1, rest.len() as int) =~= cs@.subrange(i + 1, cs@.len() as int));
        if lang.is_container(c.kind.as_str()) {
            if lang == Lang::Go {
                let gs = &c.children;
                let mut j: usize = 0;
                assert(gs@.subrange(0, gs@.len() as int) =~= gs@);
                while j < gs.len()
                    invariant
                        gs@ == c.children@,
                        j <= gs@.len(),
                        lang == Lang::Go,
                        lang_container_kinds(lang).contains(c.kind@),
                        i < cs@.len(),
                        *c == cs@[i as int],
                        find_container_spec(*node, lang) == find_container_in(
                            cs@.subrange(i as int, cs@.len() as int),
                            lang,
                        ),
                        package_identifier(gs@) == package_identifier(
                            gs@.subrange(j as int, gs@.len() as int),
                        ),
                    decreases gs@.len() - j,
                {
                    assert(gs@.subrange(j as int, gs@.len() as int).drop_first() =~= gs@.subrange(
                        j + 1,
                        gs@.len() as int,
                    ));
                    if str_eq(gs[j].kind.as_str(), "package_identifier") {
                        assert(gs@.subrange(j as int, gs@.len() as int)[0] == gs@[j as int]);
                        assert(container_name(*c, lang) == Some(gs@[j as int].text@));
                        return Some(gs[j].text.clone());
                    }
                    j += 1;
                }
            } else {
                match child_by_field_name(c, "name") {
                    Some(n) => {
                        return Some(n.text.clone());
                    },
                    None => {},
                }
            }
        }
        match find_container(c, lang) {
            Some(found) => {
                return Some(found);
            },
            None => {},
        }
        i += 1;
    }
    None
}

// ---------------------------------------------------------------------------
// Types, methods and calls
// ---------------------------------------------------------------------------

/// A type found in a tree, with its methods and the set of names of the
/// methods it calls (kept sorted, each once).
pub struct ExtractedType {
    pub name: String,
    pub kind: ComponentKind,
    pub path: String,
    pub methods: Vec<String>,
    pub callees: Vec<String>,
}

pub struct TypeV {
    pub name: Seq<char>,
    pub kind: ComponentKind,
    pub path: Seq<char>,
    pub methods: Seq<Seq<char>>,
    pub callees: Seq<Seq<char>>,
}

impl View for ExtractedType {
    type V = TypeV;

    open spec fn view(&self) -> TypeV {
        TypeV {
            name: self.name@,
            kind: self.kind,
            path: self.path@,
            methods: views(self.methods@),
            callees: views(self.callees@),
        }
    }
}

pub open spec fn types_view(v: Seq<ExtractedType>) -> Seq<TypeV> {
    v.map_values(|t: ExtractedType| t@)
}

pub open spec fn new_type(name: Seq<char>, kind: ComponentKind, path: Seq<char>) -> TypeV {
    TypeV { name, kind, path, methods: Seq::empty(), callees: Seq::empty() }
}

/// A Go `type_spec` is an interface when its `type` field is an
/// `interface_type`, a class otherwise.
pub open spec fn go_type_kind(n: SyntaxNode) -> ComponentKind {
    match child_by_field(n, "type"@) {
        Some(t) => if t.kind@ == "interface_type"@ {
            ComponentKind::Interface
        } else {
            ComponentKind::Class
        },
        None => ComponentKind::Class,
    }
}

/// The simple name of the method a call node calls.
pub open spec fn callee_spec(n: SyntaxNode, l: Lang) -> Option<Seq<char>> {
    let f = child_by_field(n, "function"@);
    match l {
        Lang::Java => opt_text(child_by_field(n, "name"@)),
        Lang::CSharp => match f {
            Some(f) => if f.kind@ == "member_access_expression"@ {
                opt_text(child_by_field(f, "name"@))
            } else {
                Some(f.text@)
            },
            None => None,
        },
        Lang::TypeScript => match f {
            Some(f) => if f.kind@ == "member_expression"@ {
                opt_text(child_by_field(f, "property"@))
            } else {
                Some(f.text@)
            },
            None => None,
        },
        Lang::Python => match f {
            Some(f) => if f.kind@ == "attribute"@ {
                opt_text(child_by_field(f, "attribute"@))
            } else {
                Some(f.text@)
            },
            None => None,
        },
        Lang::Go => None,
    }
}

pub open spec fn add_method(st: Seq<TypeV>, i: int, m: Seq<char>) -> Seq<TypeV> {
    if 0 <= i < st.len() {
        st.update(i, TypeV { methods: st[i].methods.push(m), ..st[i] })
    } else {
        st
    }
}

pub open spec fn add_callee(st: Seq<TypeV>, i: int, c: Seq<char>) -> Seq<TypeV> {
    if 0 <= i < st.len() {
        st.update(i, TypeV { callees: ins_key(st[i].callees, c), ..st[i] })
    } else {
        st
    }
}

/// The visit of one node: a type declaration with a name opens a type
/// that its subtree fills; a Go `type_spec` adds a type and goes on with the
/// current one; otherwise see [`walk_rest`].
pub open spec fn walk_spec(n: SyntaxNode, l: Lang, path: Seq<char>, cur: Option<int>, st: Seq<TypeV>) -> Seq<TypeV>
    decreases n, 1nat,
{
    if l == Lang::Go && n.kind@ == "type_spec"@ {
        let st1 = match child_by_field(n, "name"@) {
            Some(nm) => st.push(new_type(nm.text@, go_type_kind(n), path)),
            None => st,
        };
        walk_rest(n, l, path, cur, st1)
    } else {
        match lang_type_kind(l, n.kind@) {
            Some(ck) => match child_by_field(n, "name"@) {
                Some(nm) => walk_list(
                    n.children@,
                    l,
                    path,
                    Some(st.len() as int),
                    st.push(new_type(nm.text@, ck, path)),
                ),
                None => walk_rest(n, l, path, cur, st),
            },
            None => walk_rest(n, l, path, cur, st),
        }
    }
}

/// A method declaration adds its name to the current type; a call adds the
/// callee's name to the current type's callees; then the children.
pub open spec fn walk_rest(n: SyntaxNode, l: Lang, path: Seq<char>, cur: Option<int>, st: Seq<TypeV>) -> Seq<TypeV>
    decreases n, 0nat,
{
    let st2 = if lang_is_method(l, n.kind@) {
        match (cur, child_by_field(n, "name"@)) {
            (Some(i), Some(nm)) => add_method(st, i, nm.text@),
            _ => st,
        }
    } else {
        st
    };
    let st3 = if n.kind@ == lang_invocation(l) {
        match (cur, callee_spec(n, l)) {
            (Some(i), Some(c)) => add_callee(st2, i, c),
            _ => st2,
        }
    } else {
        st2
    };
    walk_list(n.children@, l, path, cur, st3)
}

pub open spec fn walk_list(cs: Seq<SyntaxNode>, l: Lang, path: Seq<char>, cur: Option<int>, st: Seq<TypeV>) -> Seq<TypeV>
    decreases cs, 0nat,
{
    if cs.len() == 0 {
        st
    } else {
        walk_list(cs.subrange(1, cs.len() as int), l, path, cur, walk_spec(cs[0], l, path, cur, st))
    }
}

pub open spec fn cur_view(c: Option<usize>) -> Option<int> {
    match c {
        Some(i) => Some(i as int),
        None => None,
    }
}

/// The name of the called method (see [`callee_spec`]).
pub fn callee_name(node: &SyntaxNode, lang: Lang) -> (r: Option<String>)
    ensures
        match r {
            Some(s) => callee_spec(*node, lang) == Some(s@),
            None => callee_spec(*node, lang) is None,
        },
{
    let f = child_by_field_name(node, "function");
    match lang {
        Lang::Java => match child_by_field_name(node, "name") {
            Some(n) => Some(n.text.clone()),
            None => None,
        },
        Lang::Go => None,
        _ => {
            let f = match f {
                Some(f) => f,
                None => {
                    return None;
                },
            };
            let (member, field) = match lang {
                Lang::CSharp => ("member_access_expression", "name"),
                Lang::TypeScript => ("member_expression", "property"),
                _ => ("attribute", "attribute"),
            };
            if str_eq(f.kind.as_str(), member) {
                match child_by_field_name(f, field) {
                    Some(n) => Some(n.text.clone()),
                    None => None,
                }
            } else {
                Some(f.text.clone())
            }
        },
    }
}

/// Adds a type and returns its index.
fn push_type(out: &mut Vec<ExtractedType>, name: String, kind: ComponentKind, path: &String) -> (idx: usize)
    ensures
        types_view(final(out)@) == types_view(old(out)@).push(new_type(name@, kind, path@)),
        idx == old(out)@.len(),
        final(out)@.len() == old(out)@.len() + 1,
{
    let methods: Vec<String> = Vec::new();
    let callees: Vec<String> = Vec::new();
    assert(views(methods@) =~= Seq::<Seq<char>>::empty());
    assert(views(callees@) =~= Seq::<Seq<char>>::empty());
    let ghost before = out@;
    out.push(ExtractedType { name, kind, path: path.clone(), methods, callees });
    proof {
        lemma_map_push(before, |t: ExtractedType| t@, out@.last());
    }
    out.len() - 1
}

/// Visits a tree, collecting types, methods and calls (see [`walk_spec`]).
pub fn walk(
    node: &SyntaxNode,
    lang: Lang,
    path: &String,
    cur: Option<usize>,
    out: &mut Vec<ExtractedType>,
)
    requires
        cur matches Some(i) ==> i < old(out)@.len(),
    ensures
        types_view(final(out)@) == walk_spec(*node, lang, path@, cur_view(cur), types_view(old(out)@)),
        final(out)@.len() >= old(out)@.len(),
    decreases node, 2nat,
{
    let kind = node.kind.as_str();
    if lang == Lang::Go && str_eq(kind, "type_spec") {
        match child_by_field_name(node, "name") {
            Some(nm) => {
                let ck = match child_by_field_name(node, "type") {
                    Some(t) => if str_eq(t.kind.as_str(), "interface_type") {
                        ComponentKind::Interface
                    } else {
                        ComponentKind::Class
                    },
                    None => ComponentKind::Class,
                };
                push_type(out, nm.text.clone(), ck, path);
            },
            None => {},
        }
        visit_rest(node, lang, path, cur, out);
        return;
    }
    match lang.type_kind(kind) {
        Some(ck) => match child_by_field_name(node, "name") {
            Some(nm) => {
                let idx = push_type(out, nm.text.clone(), ck, path);
                visit_children(node, lang, path, Some(idx), out);
                return;
            },
            None => {},
        },
        None => {},
    }
    visit_rest(node, lang, path, cur, out);
}

/// The rest of a visit (see [`walk_rest`]).
fn visit_rest(
    node: &SyntaxNode,
    lang: Lang,
    path: &String,
    cur: Option<usize>,
    out: &mut Vec<ExtractedType>,
)
    requires
        cur matches Some(i) ==> i < old(out)@.len(),
    ensures
        types_view(final(out)@) == walk_rest(*node, lang, path@, cur_view(cur), types_view(old(out)@)),
        final(out)@.len() >= old(out)@.len(),
    decreases node, 1nat,
{
    let kind = node.kind.as_str();
    if lang.is_method(kind) {
        match (cur, child_by_field_name(node, "name")) {
            (Some(i), Some(nm)) => {
                let ghost ov = out@;
                let mut t = out.remove(i);
                let ghost mv = t.methods@;
                t.methods.push(nm.text.clone());
                proof {
                    lemma_map_push(mv, |s: String| s@, t.methods@.last());
                }
                let ghost tv = t;
                out.insert(i, t);
                assert(out@ =~= ov.update(i as int, tv));
                assert(types_view(out@) =~= add_method(types_view(ov), i as int, nm.text@));
            },
            _ => {},
        }
    }
    if str_eq(kind, lang.invocation_kind()) {
        match (cur, callee_name(node, lang)) {
            (Some(i), Some(c)) => {
                let ghost ov = out@;
                let mut t = out.remove(i);
                insert_key(&mut t.callees, c.as_str());
                let ghost tv = t;
                out.insert(i, t);
                assert(out@ =~= ov.update(i as int, tv));
                assert(types_view(out@) =~= add_callee(types_view(ov), i as int, c@));
            },
            _ => {},
        }
    }
    visit_children(node, lang, path, cur, out);
}

/// Visits the children in order.
fn visit_children(
    node: &SyntaxNode,
    lang: Lang,
    path: &String,
    cur: Option<usize>,
    out: &mut Vec<ExtractedType>,
)
    requires
        cur matches Some(i) ==> i < old(out)@.len(),
    ensures
        types_view(final(out)@) == walk_list(node.children@, lang, path@, cur_view(cur), types_view(old(out)@)),
        final(out)@.len() >= old(out)@.len(),
    decreases node, 0nat,
{
    let cs = &node.children;
    let ghost start = types_view(out@);
    let ghost n0 = out@.len();
    let mut i: usize = 0;
    assert(cs@.subrange(0, cs@.len() as int) =~= cs@);
    while i < cs.len()
        invariant
            cs@ == node.children@,
            i <= cs@.len(),
            out@.len() >= n0,
            cur matches Some(k) ==> k < n0,
            walk_list(cs@, lang, path@, cur_view(cur), start) == walk_list(
                cs@.subrange(i as int, cs@.len() as int),
                lang,
                path@,
                cur_view(cur),
                types_view(out@),
            ),
        decreases cs@.len() - i,
    {
        let ghost rest = cs@.subrange(i as int, cs@.len() as int);
        assert(rest[0] == cs@[i as int]);
        assert(rest.subrange(1, rest.len() as int) =~= cs@.subrange(i + 1, cs@.len() as int));
        walk(&cs[i], lang, path, cur, out);
        i += 1;
    }
}

// ---------------------------------------------------------------------------
// Collecting a language
// ---------------------------------------------------------------------------

/// A file of the language, readable and parsed.
pub open spec fn file_ready(f: SourceFile, l: Lang) -> bool {
    ext_of(f.path@) == lang_ext(l) && f.text is Some && f.syntax is Some
}

/// The types after visiting one more file.
pub open spec fn file_types(f: SourceFile, l: Lang, root: Seq<char>, st: Seq<TypeV>) -> Seq<TypeV> {
    if file_ready(f, l) {
        walk_spec(f.syntax->0, l, rel_of(root, f.path@), None, st)
    } else {
        st
    }
}

/// The types of all files, in file order.
pub open spec fn all_types(files: Seq<SourceFile>, l: Lang, root: Seq<char>) -> Seq<TypeV>
    decreases files.len(),
{
    if files.len() == 0 {
        Seq::empty()
    } else {
        file_types(files.last(), l, root, all_types(files.drop_last(), l, root))
    }
}

/// Id prefix and kind of the container: packages for Java and Go,
/// namespaces otherwise.
pub open spec fn container_prefix_of(l: Lang) -> Seq<char> {
    if l == Lang::Java || l == Lang::Go {
        "pkg:"@
    } else {
        "ns:"@
    }
}

pub open spec fn container_kind_of(l: Lang) -> ComponentKind {
    if l == Lang::Java || l == Lang::Go {
        ComponentKind::Package
    } else {
        ComponentKind::Namespace
    }
}

/// The namespace/package component of one file, if it has one.
pub open spec fn container_component(f: SourceFile, l: Lang, root: Seq<char>) -> Seq<ComponentV> {
    if file_ready(f, l) {
        match find_container_spec(f.syntax->0, l) {
            Some(c) => seq![
                ComponentV {
                    id: container_prefix_of(l) + c,
                    name: c,
                    kind: container_kind_of(l),
                    language: lang_language(l),
                    path: rel_of(root, f.path@),
                    members: Seq::empty(),
                },
            ],
            None => Seq::empty(),
        }
    } else {
        Seq::empty()
    }
}

/// The first type, in order, that declares method `m`.
pub open spec fn owner_in(ts: Seq<TypeV>, m: Seq<char>) -> Option<Seq<char>>
    decreases ts.len(),
{
    if ts.len() == 0 {
        None
    } else if ts[0].methods.contains(m) {
        Some(ts[0].name)
    } else {
        owner_in(ts.drop_first(), m)
    }
}

/// The call edge from `t` for callee `c`: towards the owner of `c`, when
/// there is one and it is another type.
pub open spec fn callee_pair(t: TypeV, ts: Seq<TypeV>, c: Seq<char>) -> Seq<(Seq<char>, Seq<char>)> {
    match owner_in(ts, c) {
        Some(o) => if o != t.name {
            seq![(t.name, o)]
        } else {
            Seq::empty()
        },
        None => Seq::empty(),
    }
}

pub open spec fn callee_pairs(t: TypeV, ts: Seq<TypeV>) -> Seq<(Seq<char>, Seq<char>)> {
    flatten(t.callees.map_values(|c: Seq<char>| callee_pair(t, ts, c)))
}

/// The call graph between types: ordered pairs (caller, owner), each once.
pub open spec fn call_graph(ts: Seq<TypeV>) -> Seq<(Seq<char>, Seq<char>)> {
    pair_set_of(flatten(ts.map_values(|t: TypeV| callee_pairs(t, ts))))
}

pub open spec fn type_component(t: TypeV, l: Lang) -> ComponentV {
    ComponentV {
        id: lang_prefix(l) + ":"@ + t.name,
        name: t.name,
        kind: t.kind,
        language: lang_language(l),
        path: t.path,
        members: t.methods,
    }
}

pub open spec fn call_relation(p: (Seq<char>, Seq<char>), l: Lang) -> RelationV {
    RelationV {
        from: lang_prefix(l) + ":"@ + p.0,
        to: lang_prefix(l) + ":"@ + p.1,
        kind: RelationKind::Calls,
    }
}

/// The project after reading the files of language `l`: the containers,
/// then the types (ids already present are skipped), and one `Calls`
/// relation per edge of the call graph.
pub open spec fn with_language(p: ProjectV, files: Seq<SourceFile>, l: Lang, root: Seq<char>) -> ProjectV {
    let ts = all_types(files, l, root);
    let containers = flatten(files.map_values(|f: SourceFile| container_component(f, l, root)));
    ProjectV {
        components: push_all_unique(
            push_all_unique(p.components, containers),
            ts.map_values(|t: TypeV| type_component(t, l)),
        ),
        relations: p.relations + call_graph(ts).map_values(
            |q: (Seq<char>, Seq<char>)| call_relation(q, l),
        ),
        ..p
    }
}

/// The owner of method `m` (see [`owner_in`]).
fn owner_of(types: &Vec<ExtractedType>, m: &str) -> (r: Option<String>)
    ensures
        match r {
            Some(s) => owner_in(types_view(types@), m@) == Some(s@),
            None => owner_in(types_view(types@), m@) is None,
        },
{
    let ghost ts = types_view(types@);
    let mut i: usize = 0;
    assert(ts.subrange(0, ts.len() as int) =~= ts);
    while i < types.len()
        invariant
            ts == types_view(types@),
            i <= ts.len(),
            owner_in(ts, m@) == owner_in(ts.subrange(i as int, ts.len() as int), m@),
        decreases ts.len() - i,
    {
        assert(ts.subrange(i as int, ts.len() as int).drop_first() =~= ts.subrange(i + 1, ts.len() as int));
        assert(ts.subrange(i as int, ts.len() as int)[0] == types@[i as int]@);
        if vec_contains(&types[i].methods, m) {
            return Some(types[i].name.clone());
        }
        i += 1;
    }
    None
}

/// The call graph of the collected types (see [`call_graph`]).
pub fn call_pairs(types: &Vec<ExtractedType>) -> (r: Vec<(String, String)>)
    ensures
        pairs_view(r@) == call_graph(types_view(types@)),
{
    let ghost ts = types_view(types@);
    let ghost cands = flatten(ts.map_values(|t: TypeV| callee_pairs(t, ts)));
    let mut r: Vec<(String, String)> = Vec::new();
    for i in 0..types.len()
        invariant
            ts == types_view(types@),
            cands == flatten(ts.map_values(|t: TypeV| callee_pairs(t, ts))),
            pairs_view(r@) == pair_set_of(flatten(ts.map_values(|t: TypeV| callee_pairs(t, ts)).take(i as int))),
    {
        let t = &types[i];
        let ghost per = ts.map_values(|t: TypeV| callee_pairs(t, ts));
        proof {
            lemma_flatten_take(per, i as int);
        }
        let ghost done = flatten(per.take(i as int));
        let ghost tc = t.callees@;
        let ghost inner = views(tc).map_values(|c: Seq<char>| callee_pair(t@, ts, c));
        assert(per[i as int] == flatten(inner));
        for j in 0..t.callees.len()
            invariant
                ts == types_view(types@),
                *t == types@[i as int],
                inner == views(t.callees@).map_values(|c: Seq<char>| callee_pair(t@, ts, c)),
                pairs_view(r@) == pair_set_of(done + flatten(inner.take(j as int))),
        {
            proof {
                lemma_flatten_take(inner, j as int);
            }
            let c = &t.callees[j];
            match owner_of(types, c.as_str()) {
                Some(o) => {
                    if !str_eq(o.as_str(), t.name.as_str()) {
                        assert(inner[j as int] == seq![(t.name@, o@)]);
                        assert((done + flatten(inner.take(j + 1))).drop_last() =~= done + flatten(inner.take(j as int)));
                        insert_pair(&mut r, t.name.clone(), o);
                    } else {
                        assert(done + flatten(inner.take(j + 1)) =~= done + flatten(inner.take(j as int)));
                    }
                },
                None => {
                    assert(done + flatten(inner.take(j + 1)) =~= done + flatten(inner.take(j as int)));
                },
            }
        }
        assert(inner.take(t.callees.len() as int) =~= inner);
    }
    assert(ts.map_values(|t: TypeV| callee_pairs(t, ts)).take(types.len() as int) =~= ts.map_values(|t: TypeV| callee_pairs(t, ts)));
    r
}

/// Extracts components and `Calls` relations for one language (see
/// [`with_language`]).
pub fn collect(project: &mut Project, root: &str, files: &Vec<SourceFile>, lang: Lang)
    ensures
        final(project)@ == with_language(old(project)@, files@, lang, root@),
{
    let ghost start = project@;
    let ghost per = files@.map_values(|f: SourceFile| container_component(f, lang, root@));
    let mut types: Vec<ExtractedType> = Vec::new();
    let prefix = lang.id_prefix();
    for i in 0..files.len()
        invariant
            per == files@.map_values(|f: SourceFile| container_component(f, lang, root@)),
            types_view(types@) == all_types(files@.take(i as int), lang, root@),
            project@ == with_components(start, push_all_unique(start.components, flatten(per.take(i as int)))),
    {
        proof {
            lemma_flatten_take(per, i as int);
            lemma_push_all_unique_append(start.components, flatten(per.take(i as int)), per[i as int]);
        }
        assert(files@.take(i + 1).drop_last() =~= files@.take(i as int));
        let f = &files[i];
        let e = ext(f.path.as_str());
        if str_eq(e.as_str(), lang.file_ext()) && f.text.is_some() {
            match &f.syntax {
                Some(tree) => {
                    let place = rel(root, f.path.as_str());
                    let mut cands: Vec<Component> = Vec::new();
                    match find_container(tree, lang) {
                        Some(c) => {
                            let (cp, ck) = if lang == Lang::Java || lang == Lang::Go {
                                ("pkg:", ComponentKind::Package)
                            } else {
                                ("ns:", ComponentKind::Namespace)
                            };
                            let members: Vec<String> = Vec::new();
                            assert(views(members@) =~= Seq::<Seq<char>>::empty());
                            cands.push(
                                Component {
                                    id: concat2(cp, c.as_str()),
                                    name: c,
                                    kind: ck,
                                    language: lang.model_language(),
                                    path: place.clone(),
                                    members,
                                },
                            );
                        },
                        None => {},
                    }
                    assert(components_view(cands@) =~= per[i as int]);
                    push_all(project, &cands);
                    walk(tree, lang, &place, None, &mut types);
                },
                None => {
                    assert(per[i as int] =~= Seq::<ComponentV>::empty());
                    assert(flatten(per.take(i as int)) + per[i as int] =~= flatten(per.take(i as int)));
                },
            }
        } else {
            assert(per[i as int] =~= Seq::<ComponentV>::empty());
            assert(flatten(per.take(i as int)) + per[i as int] =~= flatten(per.take(i as int)));
        }
    }
    assert(files@.take(files.len() as int) =~= files@);
    assert(per.take(files.len() as int) =~= per);
    let pairs = call_pairs(&types);
    let ghost ts = types_view(types@);
    let mut comps: Vec<Component> = Vec::new();
    for i in 0..types.len()
        invariant
            ts == types_view(types@),
            components_view(comps@) == ts.take(i as int).map_values(|t: TypeV| type_component(t, lang)),
            prefix@ == lang_prefix(lang),
    {
        let t = &types[i];
        let a = concat2(prefix, ":");
        let id = concat2(a.as_str(), t.name.as_str());
        let ghost before = comps@;
        comps.push(
            Component {
                id,
                name: t.name.clone(),
                kind: t.kind,
                language: lang.model_language(),
                path: t.path.clone(),
                members: copy_strings(&t.methods),
            },
        );
        proof {
            lemma_map_push(before, |c: Component| c@, comps@.last());
        }
        assert(ts.take(i + 1).map_values(|t: TypeV| type_component(t, lang)) =~= ts.take(i as int).map_values(|t: TypeV| type_component(t, lang)).push(type_component(ts[i as int], lang)));
    }
    assert(ts.take(types.len() as int) =~= ts);
    push_all(project, &comps);
    let ghost before_rel = project@;
    for i in 0..pairs.len()
        invariant
            prefix@ == lang_prefix(lang),
            project@ == (ProjectV {
                relations: before_rel.relations + pairs_view(pairs@).take(i as int).map_values(
                    |q: (Seq<char>, Seq<char>)| call_relation(q, lang),
                ),
                ..before_rel
            }),
    {
        let a = concat2(prefix, ":");
        let from = concat2(a.as_str(), pairs[i].0.as_str());
        let to = concat2(a.as_str(), pairs[i].1.as_str());
        let ghost rv = project.relations@;
        project.relations.push(Relation { from, to, kind: RelationKind::Calls });
        proof {
            lemma_map_push(rv, |r: Relation| r@, project.relations@.last());
        }
        assert(pairs_view(pairs@).take(i + 1).map_values(|q: (Seq<char>, Seq<char>)| call_relation(q, lang)) =~= pairs_view(pairs@).take(i as int).map_values(|q: (Seq<char>, Seq<char>)| call_relation(q, lang)).push(call_relation(pairs_view(pairs@)[i as int], lang)));
        assert(project@.relations =~= before_rel.relations + pairs_view(pairs@).take(i + 1).map_values(|q: (Seq<char>, Seq<char>)| call_relation(q, lang)));
    }
    assert(pairs_view(pairs@).take(pairs.len() as int) =~= pairs_view(pairs@));
}

} // verus!
