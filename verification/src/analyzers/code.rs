//! Heuristic extraction of code components shared by the C# and Java
//! analyzers: the namespace or package of each file, its classes and
//! interfaces, and the public methods as members of each type.

use vstd::prelude::*;
use super::{SourceFile, ext, ext_of, first_match, first_match_of, group, group_at, regex_captures, regex_captures_of, rel, rel_of};
use crate::model::{Component, ComponentKind, ComponentV, Language, Project, ProjectV, components_view};
use crate::text::{concat2, copy_strings, flatten, lemma_flatten_take, lemma_map_push, str_eq, views};

verus! {

broadcast use vstd::seq_lib::group_seq_properties;

pub const CS_NAMESPACE_PATTERN: &'static str = r"(?m)^\s*namespace\s+([\w.]+)";

pub const CS_TYPE_PATTERN: &'static str = r"(?m)^\s*(?:public|internal|sealed|abstract|static|partial|\s)*\b(class|interface)\s+(\w+)";

pub const CS_METHOD_PATTERN: &'static str = r"(?m)^\s*public\s+(?:static\s+|async\s+|virtual\s+|override\s+)*[\w<>\[\],?]+\s+(\w+)\s*\(";

pub const JAVA_PACKAGE_PATTERN: &'static str = r"(?m)^\s*package\s+([\w.]+)\s*;";

pub const JAVA_TYPE_PATTERN: &'static str = r"(?m)^\s*(?:public|final|abstract|\s)*\b(class|interface)\s+(\w+)";

pub const JAVA_METHOD_PATTERN: &'static str = r"(?m)^\s*public\s+(?:static\s+|final\s+|synchronized\s+)*[\w<>\[\],?]+\s+(\w+)\s*\(";

/// The two languages read by pattern matching.
#[derive(Clone, Copy, Debug, PartialEq, Eq, Structural)]
pub enum Flavor {
    CSharp,
    Java,
}

pub open spec fn flavor_ext(fl: Flavor) -> Seq<char> {
    match fl {
        Flavor::CSharp => "cs"@,
        Flavor::Java => "java"@,
    }
}

pub open spec fn container_pattern(fl: Flavor) -> Seq<char> {
    match fl {
        Flavor::CSharp => CS_NAMESPACE_PATTERN@,
        Flavor::Java => JAVA_PACKAGE_PATTERN@,
    }
}

pub open spec fn type_pattern(fl: Flavor) -> Seq<char> {
    match fl {
        Flavor::CSharp => CS_TYPE_PATTERN@,
        Flavor::Java => JAVA_TYPE_PATTERN@,
    }
}

pub open spec fn method_pattern(fl: Flavor) -> Seq<char> {
    match fl {
        Flavor::CSharp => CS_METHOD_PATTERN@,
        Flavor::Java => JAVA_METHOD_PATTERN@,
    }
}

/// Id prefix of the namespace (`ns:`) or package (`pkg:`).
pub open spec fn container_prefix(fl: Flavor) -> Seq<char> {
    match fl {
        Flavor::CSharp => "ns:"@,
        Flavor::Java => "pkg:"@,
    }
}

/// Id prefix of a type (`cs:` or `java:`).
pub open spec fn type_prefix(fl: Flavor) -> Seq<char> {
    match fl {
        Flavor::CSharp => "cs:"@,
        Flavor::Java => "java:"@,
    }
}

pub open spec fn container_kind(fl: Flavor) -> ComponentKind {
    match fl {
        Flavor::CSharp => ComponentKind::Namespace,
        Flavor::Java => ComponentKind::Package,
    }
}

pub open spec fn flavor_language(fl: Flavor) -> Language {
    match fl {
        Flavor::CSharp => Language::CSharp,
        Flavor::Java => Language::Java,
    }
}

/// Group 1 of each match, in order.
pub open spec fn first_groups(ms: Seq<Seq<Option<Seq<char>>>>) -> Seq<Seq<char>>
    decreases ms.len(),
{
    if ms.len() == 0 {
        Seq::empty()
    } else {
        let r = first_groups(ms.drop_last());
        match group(ms.last(), 1) {
            Some(n) => r.push(n),
            None => r,
        }
    }
}

/// The type declared by one match of the type pattern: an interface when
/// group 1 is `interface`, a class otherwise, named by group 2.
pub open spec fn type_of_match(
    m: Seq<Option<Seq<char>>>,
    fl: Flavor,
    path: Seq<char>,
    members: Seq<Seq<char>>,
) -> Seq<ComponentV> {
    match (group(m, 1), group(m, 2)) {
        (Some(k), Some(name)) => seq![
            ComponentV {
                id: type_prefix(fl) + name,
                name: name,
                kind: if k == "interface"@ {
                    ComponentKind::Interface
                } else {
                    ComponentKind::Class
                },
                language: flavor_language(fl),
                path: path,
                members: members,
            },
        ],
        _ => Seq::empty(),
    }
}

/// The namespace or package of a file (first match only).
pub open spec fn container_candidate(fl: Flavor, t: Seq<char>, place: Seq<char>) -> Seq<ComponentV> {
    match first_match(container_pattern(fl), t) {
        Some(m) => match group(m, 1) {
            Some(n) => seq![
                ComponentV {
                    id: container_prefix(fl) + n,
                    name: n,
                    kind: container_kind(fl),
                    language: flavor_language(fl),
                    path: place,
                    members: Seq::empty(),
                },
            ],
            None => Seq::empty(),
        },
        None => Seq::empty(),
    }
}

/// The public methods of a file, in order.
pub open spec fn file_methods(fl: Flavor, t: Seq<char>) -> Seq<Seq<char>> {
    match regex_captures_of(method_pattern(fl), t) {
        Some(ms) => first_groups(ms),
        None => Seq::empty(),
    }
}

/// The classes and interfaces of a file, in order.
pub open spec fn file_types(fl: Flavor, t: Seq<char>, place: Seq<char>, methods: Seq<Seq<char>>) -> Seq<ComponentV> {
    match regex_captures_of(type_pattern(fl), t) {
        Some(ms) => flatten(
            ms.map_values(|m: Seq<Option<Seq<char>>>| type_of_match(m, fl, place, methods)),
        ),
        None => Seq::empty(),
    }
}

/// The components one source file declares, in order: its namespace or
/// package (first match only), then every class and interface, each with all
/// public methods of the file as members.
pub open spec fn code_candidates(fl: Flavor, root: Seq<char>, f: SourceFile) -> Seq<ComponentV> {
    if ext_of(f.path@) != flavor_ext(fl) {
        Seq::empty()
    } else {
        match f.text {
            None => Seq::empty(),
            Some(t) => {
                let place = rel_of(root, f.path@);
                let methods = file_methods(fl, t@);
                container_candidate(fl, t@, place) + file_types(fl, t@, place, methods)
            },
        }
    }
}

/// Whether some component has id `id`.
pub open spec fn has_id(cs: Seq<ComponentV>, id: Seq<char>) -> bool {
    exists|i: int| 0 <= i < cs.len() && #[trigger] cs[i].id == id
}

/// `c` appended unless a component with the same id is already there.
pub open spec fn push_unique_spec(cs: Seq<ComponentV>, c: ComponentV) -> Seq<ComponentV> {
    if has_id(cs, c.id) {
        cs
    } else {
        cs.push(c)
    }
}

/// Every candidate added in order, skipping ids already present.
pub open spec fn push_all_unique(cs: Seq<ComponentV>, cands: Seq<ComponentV>) -> Seq<ComponentV>
    decreases cands.len(),
{
    if cands.len() == 0 {
        cs
    } else {
        push_unique_spec(push_all_unique(cs, cands.drop_last()), cands.last())
    }
}

/// The project with other components.
pub open spec fn with_components(p: ProjectV, cs: Seq<ComponentV>) -> ProjectV {
    ProjectV { components: cs, ..p }
}

// ---------------------------------------------------------------------------
// Implementation
// ---------------------------------------------------------------------------

fn flavor_patterns(fl: Flavor) -> (r: (&'static str, &'static str, &'static str))
    ensures
        r.0@ == container_pattern(fl),
        r.1@ == type_pattern(fl),
        r.2@ == method_pattern(fl),
{
    match fl {
        Flavor::CSharp => (CS_NAMESPACE_PATTERN, CS_TYPE_PATTERN, CS_METHOD_PATTERN),
        Flavor::Java => (JAVA_PACKAGE_PATTERN, JAVA_TYPE_PATTERN, JAVA_METHOD_PATTERN),
    }
}

fn flavor_names(fl: Flavor) -> (r: (&'static str, &'static str, &'static str))
    ensures
        r.0@ == flavor_ext(fl),
        r.1@ == container_prefix(fl),
        r.2@ == type_prefix(fl),
{
    match fl {
        Flavor::CSharp => ("cs", "ns:", "cs:"),
        Flavor::Java => ("java", "pkg:", "java:"),
    }
}

fn flavor_kinds(fl: Flavor) -> (r: (ComponentKind, Language))
    ensures
        r.0 == container_kind(fl),
        r.1 == flavor_language(fl),
{
    match fl {
        Flavor::CSharp => (ComponentKind::Namespace, Language::CSharp),
        Flavor::Java => (ComponentKind::Package, Language::Java),
    }
}

/// Adds `comp` unless a component with the same id is already present.
pub fn push_unique(project: &mut Project, comp: Component)
    ensures
        final(project)@ == with_components(
            old(project)@,
            push_unique_spec(old(project)@.components, comp@),
        ),
{
    let n = project.components.len();
    let mut i: usize = 0;
    while i < n
        invariant
            n == project.components.len(),
            i <= n,
            forall|j: int| 0 <= j < i ==> #[trigger] project.components@[j].id@ != comp.id@,
        decreases n - i,
    {
        if str_eq(project.components[i].id.as_str(), comp.id.as_str()) {
            assert(components_view(project.components@)[i as int].id == comp@.id);
            return;
        }
        i += 1;
    }
    assert(!has_id(components_view(project.components@), comp@.id)) by {
        if has_id(components_view(project.components@), comp@.id) {
            let k = choose|k: int|
                0 <= k < components_view(project.components@).len()
                    && #[trigger] components_view(project.components@)[k].id == comp@.id;
            assert(project.components@[k].id@ != comp.id@);
        }
    }
    let ghost before = project.components@;
    project.components.push(comp);
    proof {
        lemma_map_push(before, |c: Component| c@, comp);
    }
}

fn method_names(ms: &Vec<Vec<Option<String>>>) -> (r: Vec<String>)
    ensures
        views(r@) == first_groups(ms.deep_view()),
{
    let mut r: Vec<String> = Vec::new();
    for i in 0..ms.len()
        invariant
            views(r@) == first_groups(ms.deep_view().take(i as int)),
    {
        assert(ms.deep_view().take(i + 1).drop_last() =~= ms.deep_view().take(i as int));
        assert(ms.deep_view()[i as int] == ms[i as int].deep_view());
        match group_at(&ms[i], 1) {
            Some(n) => {
                let ghost before = r@;
                r.push(n);
                proof {
                    lemma_map_push(before, |s: String| s@, n);
                }
            },
            None => {},
        }
    }
    assert(ms.deep_view().take(ms.len() as int) =~= ms.deep_view());
    r
}

fn type_of(
    m: &Vec<Option<String>>,
    fl: Flavor,
    place: &String,
    members: &Vec<String>,
) -> (r: Vec<Component>)
    ensures
        components_view(r@) == type_of_match(m.deep_view(), fl, place@, views(members@)),
{
    let mut r: Vec<Component> = Vec::new();
    let (_e, _cp, tp) = flavor_names(fl);
    let (_k, lang) = flavor_kinds(fl);
    match (group_at(m, 1), group_at(m, 2)) {
        (Some(k), Some(name)) => {
            let kind = if str_eq(k.as_str(), "interface") {
                ComponentKind::Interface
            } else {
                ComponentKind::Class
            };
            let id = concat2(tp, name.as_str());
            r.push(
                Component {
                    id,
                    name,
                    kind,
                    language: lang,
                    path: place.clone(),
                    members: copy_strings(members),
                },
            );
            assert(components_view(r@) =~= type_of_match(
                m.deep_view(),
                fl,
                place@,
                views(members@),
            ));
        },
        _ => {
            assert(components_view(r@) =~= type_of_match(
                m.deep_view(),
                fl,
                place@,
                views(members@),
            ));
        },
    }
    r
}

/// The components one file declares (see [`code_candidates`]).
pub fn file_components(fl: Flavor, root: &str, f: &SourceFile) -> (r: Vec<Component>)
    ensures
        components_view(r@) == code_candidates(fl, root@, *f),
{
    let mut r: Vec<Component> = Vec::new();
    let (e, cp, _tp) = flavor_names(fl);
    let (ck, lang) = flavor_kinds(fl);
    let (cpat, tpat, mpat) = flavor_patterns(fl);
    let fe = ext(f.path.as_str());
    if !str_eq(fe.as_str(), e) {
        assert(components_view(r@) =~= code_candidates(fl, root@, *f));
        return r;
    }
    let t = match &f.text {
        None => {
            assert(components_view(r@) =~= code_candidates(fl, root@, *f));
            return r;
        },
        Some(t) => t,
    };
    let place = rel(root, f.path.as_str());
    match first_match_of(cpat, t.as_str()) {
        Some(m) => match group_at(&m, 1) {
            Some(n) => {
                let id = concat2(cp, n.as_str());
                assert(id@ == container_prefix(fl) + n@);
                let path = place.clone();
                assert(path@ == place@);
                let members: Vec<String> = Vec::new();
                assert(views(members@) =~= Seq::<Seq<char>>::empty());
                r.push(
                    Component {
                        id,
                        name: n,
                        kind: ck,
                        language: lang,
                        path,
                        members,
                    },
                );
                assert(components_view(r@) =~= container_candidate(fl, t@, place@));
            },
            None => {
                assert(components_view(r@) =~= container_candidate(fl, t@, place@));
            },
        },
        None => {
            assert(components_view(r@) =~= container_candidate(fl, t@, place@));
        },
    }
    let ghost container = components_view(r@);
    assert(container =~= container_candidate(fl, t@, place@));
    let methods = match regex_captures(mpat, t.as_str()) {
        Some(ms) => method_names(&ms),
        None => Vec::new(),
    };
    assert(views(methods@) == file_methods(fl, t@)) by {
        if regex_captures_of(method_pattern(fl), t@) is None {
            assert(views(methods@) =~= Seq::<Seq<char>>::empty());
        }
    }
    match regex_captures(tpat, t.as_str()) {
        Some(ms) => {
            let ghost mv = ms.deep_view();
            let ghost per = mv.map_values(
                |m: Seq<Option<Seq<char>>>| type_of_match(m, fl, place@, views(methods@)),
            );
            for i in 0..ms.len()
                invariant
                    mv == ms.deep_view(),
                    per == mv.map_values(
                        |m: Seq<Option<Seq<char>>>| type_of_match(m, fl, place@, views(methods@)),
                    ),
                    components_view(r@) == container + flatten(per.take(i as int)),
            {
                proof {
                    lemma_flatten_take(per, i as int);
                }
                let ghost before = r@;
                let mut more = type_of(&ms[i], fl, &place, &methods);
                assert(mv[i as int] == ms[i as int].deep_view());
                r.append(&mut more);
                assert(components_view(r@) =~= components_view(before) + per[i as int]);
            }
            assert(per.take(ms.len() as int) =~= per);
        },
        None => {
            assert(container + Seq::<ComponentV>::empty() =~= container);
        },
    }
    assert(components_view(r@) == container + file_types(fl, t@, place@, views(methods@)));
    r
}

/// Adding `a + b` is adding `a`, then `b`.
pub proof fn lemma_push_all_unique_append(cs: Seq<ComponentV>, a: Seq<ComponentV>, b: Seq<ComponentV>)
    ensures
        push_all_unique(cs, a + b) == push_all_unique(push_all_unique(cs, a), b),
    decreases b.len(),
{
    if b.len() == 0 {
        assert(a + b =~= a);
    } else {
        assert((a + b).drop_last() =~= a + b.drop_last());
        lemma_push_all_unique_append(cs, a, b.drop_last());
    }
}

/// Adds each of `cands` in order, skipping ids already present.
pub fn push_all(project: &mut Project, cands: &Vec<Component>)
    ensures
        final(project)@ == with_components(
            old(project)@,
            push_all_unique(old(project)@.components, components_view(cands@)),
        ),
{
    let ghost start = project@;
    let mut j: usize = 0;
    while j < cands.len()
        invariant
            j <= cands.len(),
            project@ == with_components(
                start,
                push_all_unique(start.components, components_view(cands@).take(j as int)),
            ),
        decreases cands.len() - j,
    {
        let c = cands[j].copy();
        assert(components_view(cands@).take(j + 1).drop_last() =~= components_view(cands@).take(j as int));
        assert(components_view(cands@)[j as int] == c@);
        push_unique(project, c);
        j += 1;
    }
    assert(components_view(cands@).take(cands.len() as int) =~= components_view(cands@));
}

/// Adds the components of every file in `fl`'s language, skipping ids
/// already present.
pub fn collect_code(project: &mut Project, root: &str, files: &Vec<SourceFile>, fl: Flavor)
    ensures
        final(project)@ == with_components(
            old(project)@,
            push_all_unique(
                old(project)@.components,
                flatten(files@.map_values(|f: SourceFile| code_candidates(fl, root@, f))),
            ),
        ),
{
    let ghost per = files@.map_values(|f: SourceFile| code_candidates(fl, root@, f));
    let ghost start = project@;
    for i in 0..files.len()
        invariant
            per == files@.map_values(|f: SourceFile| code_candidates(fl, root@, f)),
            project@ == with_components(
                start,
                push_all_unique(start.components, flatten(per.take(i as int))),
            ),
    {
        proof {
            lemma_flatten_take(per, i as int);
            lemma_push_all_unique_append(start.components, flatten(per.take(i as int)), per[i as int]);
        }
        let cands = file_components(fl, root, &files[i]);
        push_all(project, &cands);
    }
    assert(per.take(files.len() as int) =~= per);
}

} // verus!
