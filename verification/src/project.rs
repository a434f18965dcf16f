//! Orchestration of the analysis: the files of the project folder go through
//! every analyzer, whose results merge into one [`Project`]; relations are
//! then derived from what was collected.

use vstd::prelude::*;
use vstd::utf8::encode_utf8;
use crate::Error;
use crate::analyzers::{SourceFile, file_name, file_name_of, rel_of, rel};
use crate::analyzers::treesitter::{Lang, with_language};
use crate::analyzers::code::{Flavor, code_candidates, push_all_unique, with_components};
use crate::analyzers::config::{config_component, with_more_components};
use crate::analyzers::database::{file_tables, with_tables};
use crate::analyzers::deps::{file_dependencies, with_dependencies};
use crate::analyzers::docker_compose::{file_services, with_services};
use crate::analyzers::git::with_remote;
use crate::analyzers::kubernetes::file_units;
use crate::analyzers::openapi::{file_endpoints, with_endpoints};
use crate::analyzers::stats::{counted, total_loc, with_stats};
use crate::model::{ComponentV, EndpointV, Project, ProjectV, Relation, RelationKind, RelationV, ServiceV, StatsV, TableV, relations_view};
use crate::text::{
    concat2, find_chars, find_from, flatten, has_prefix, is_ascii_alnum, lemma_find_from,
    lemma_flatten_take, lemma_map_push, lowercase_of, occurs_at, split_char, split_on, starts_with,
    opt_view, owned, str_eq, to_chars, to_lower, views,
};

verus! {

broadcast use vstd::seq_lib::group_seq_properties;

/// Folders skipped while walking the project (noise or build output).
pub open spec fn is_skipped_name(n: Seq<char>) -> bool {
    n == ".git"@ || n == ".archmind"@ || n == "node_modules"@ || n == "target"@ || n == "bin"@ || n
        == "obj"@ || n == "dist"@ || n == ".vs"@ || n == ".idea"@ || n == "__pycache__"@ || n
        == ".gradle"@ || n == "build"@
}

/// Whether a path falls on a folder to skip (decided by its file name).
pub fn is_skipped(path: &str) -> (b: bool)
    ensures
        b == is_skipped_name(file_name_of(path@)),
{
    let n = file_name(path);
    let n = n.as_str();
    str_eq(n, ".git") || str_eq(n, ".archmind") || str_eq(n, "node_modules") || str_eq(n, "target")
        || str_eq(n, "bin") || str_eq(n, "obj") || str_eq(n, "dist") || str_eq(n, ".vs") || str_eq(
        n,
        ".idea",
    ) || str_eq(n, "__pycache__") || str_eq(n, ".gradle") || str_eq(n, "build")
}

// ---------------------------------------------------------------------------
// Derived relations
// ---------------------------------------------------------------------------

pub open spec fn service_edges(s: ServiceV) -> Seq<RelationV> {
    s.depends_on.map_values(
        |d: Seq<char>| RelationV { from: s.id, to: "service:"@ + d, kind: RelationKind::DependsOn },
    )
}

pub open spec fn table_edges(t: TableV) -> Seq<RelationV> {
    t.foreign_keys.map_values(
        |fk: crate::model::ForeignKeyV|
            RelationV {
                from: t.id,
                to: "table:"@ + lowercase_of(fk.references_table),
                kind: RelationKind::References,
            },
    )
}

/// The edges derived from the entities: service to service for every
/// `depends_on`, table to table for every foreign key.
pub open spec fn derived_edges(p: ProjectV) -> Seq<RelationV> {
    flatten(p.services.map_values(|s: ServiceV| service_edges(s))) + flatten(
        p.tables.map_values(|t: TableV| table_edges(t)),
    )
}

pub open spec fn with_relations(p: ProjectV, rs: Seq<RelationV>) -> ProjectV {
    ProjectV { relations: p.relations + rs, ..p }
}

/// Appends the relations derived from the collected entities.
pub fn derive_relations(project: &mut Project)
    ensures
        final(project)@ == with_relations(old(project)@, derived_edges(old(project)@)),
{
    let ghost p0 = project@;
    let mut rels: Vec<Relation> = Vec::new();
    let ghost per_s = p0.services.map_values(|s: ServiceV| service_edges(s));
    for i in 0..project.services.len()
        invariant
            project@ == p0,
            per_s == p0.services.map_values(|s: ServiceV| service_edges(s)),
            relations_view(rels@) == flatten(per_s.take(i as int)),
    {
        proof {
            lemma_flatten_take(per_s, i as int);
        }
        let s = &project.services[i];
        let ghost base = relations_view(rels@);
        for j in 0..s.depends_on.len()
            invariant
                *s == project.services@[i as int],
                relations_view(rels@) == base + service_edges(s@).take(j as int),
        {
            let ghost before = rels@;
            rels.push(
                Relation {
                    from: s.id.clone(),
                    to: concat2("service:", s.depends_on[j].as_str()),
                    kind: RelationKind::DependsOn,
                },
            );
            proof {
                lemma_map_push(before, |r: Relation| r@, rels@.last());
            }
            assert(service_edges(s@).take(j + 1) =~= service_edges(s@).take(j as int).push(
                service_edges(s@)[j as int],
            ));
        }
        assert(service_edges(s@).take(s.depends_on.len() as int) =~= service_edges(s@));
        assert(per_s[i as int] == service_edges(s@));
    }
    assert(per_s.take(project.services.len() as int) =~= per_s);
    let ghost part1 = relations_view(rels@);
    let ghost per_t = p0.tables.map_values(|t: TableV| table_edges(t));
    for i in 0..project.tables.len()
        invariant
            project@ == p0,
            per_t == p0.tables.map_values(|t: TableV| table_edges(t)),
            relations_view(rels@) == part1 + flatten(per_t.take(i as int)),
    {
        proof {
            lemma_flatten_take(per_t, i as int);
        }
        let t = &project.tables[i];
        let ghost base = relations_view(rels@);
        for j in 0..t.foreign_keys.len()
            invariant
                *t == project.tables@[i as int],
                relations_view(rels@) == base + table_edges(t@).take(j as int),
        {
            let ghost before = rels@;
            let target = to_lower(t.foreign_keys[j].references_table.as_str());
            rels.push(
                Relation {
                    from: t.id.clone(),
                    to: concat2("table:", target.as_str()),
                    kind: RelationKind::References,
                },
            );
            proof {
                lemma_map_push(before, |r: Relation| r@, rels@.last());
            }
            assert(table_edges(t@).take(j + 1) =~= table_edges(t@).take(j as int).push(
                table_edges(t@)[j as int],
            ));
        }
        assert(table_edges(t@).take(t.foreign_keys.len() as int) =~= table_edges(t@));
        assert(per_t[i as int] == table_edges(t@));
        assert(part1 + flatten(per_t.take(i as int)) + per_t[i as int] =~= part1 + (flatten(
            per_t.take(i as int),
        ) + per_t[i as int]));
    }
    assert(per_t.take(project.tables.len() as int) =~= per_t);
    let ghost rv = project.relations@;
    project.relations.append(&mut rels);
    assert(relations_view(project.relations@) =~= relations_view(rv) + derived_edges(p0));
}

// ---------------------------------------------------------------------------
// Whole words
// ---------------------------------------------------------------------------

/// A character of a word: ASCII letter or digit, or `_`.
pub open spec fn is_word_char(c: char) -> bool {
    is_ascii_alnum(c) || c == '_'
}

/// The occurrence of `n` at `i` is not glued to word characters.
pub open spec fn whole_word_at(h: Seq<char>, n: Seq<char>, i: int) -> bool {
    (i == 0 || !is_word_char(h[i - 1])) && (i + n.len() >= h.len() || !is_word_char(h[i + n.len()]))
}

/// Scans the occurrences of `n` from `start`, each search resuming after
/// the previous occurrence, until one is a whole word.
pub open spec fn scan_word(h: Seq<char>, n: Seq<char>, start: int) -> bool
    decreases h.len() - start,
{
    if n.len() == 0 || start < 0 || start > h.len() {
        false
    } else {
        match find_from(h, n, start) {
            Some(i) => {
                proof {
                    lemma_find_from(h, n, start);
                }
                whole_word_at(h, n, i) || scan_word(h, n, i + n.len())
            },
            None => false,
        }
    }
}

/// Whether `needle` occurs in `haystack` as a whole word (delimited by
/// characters that are not ASCII letters, digits or `_`).
pub fn contains_word(haystack: &str, needle: &str) -> (b: bool)
    requires
        needle@.len() > 0,
    ensures
        b == scan_word(haystack@, needle@, 0),
{
    let h = to_chars(haystack);
    let n = to_chars(needle);
    let mut start: usize = 0;
    while start <= h.len()
        invariant
            h@ == haystack@,
            n@ == needle@,
            n@.len() > 0,
            scan_word(h@, n@, 0) == scan_word(h@, n@, start as int),
        decreases h.len() + 1 - start,
    {
        match find_chars(&h, &n, start) {
            Some(i) => {
                proof {
                    lemma_find_from(h@, n@, start as int);
                }
                let before_ok = i == 0 || !is_word(h[i - 1]);
                let after = i + n.len();
                let after_ok = after >= h.len() || !is_word(h[after]);
                if before_ok && after_ok {
                    return true;
                }
                start = after;
            },
            None => {
                return false;
            },
        }
    }
    false
}

/// A word character (see [`is_word_char`]).
pub fn is_word(c: char) -> (b: bool)
    ensures
        b == is_word_char(c),
{
    ('0' <= c && c <= '9') || ('a' <= c && c <= 'z') || ('A' <= c && c <= 'Z') || c == '_'
}

// ---------------------------------------------------------------------------
// Layers of the application flow
// ---------------------------------------------------------------------------

/// Some member of `ms` has lower case `key`.
pub open spec fn has_member_lc(ms: Seq<Seq<char>>, key: Seq<char>) -> bool {
    exists|j: int| 0 <= j < ms.len() && #[trigger] lowercase_of(ms[j]) == key
}

/// The first component, in order, with a member whose lower case is `key`.
pub open spec fn owner_lc(cs: Seq<ComponentV>, key: Seq<char>) -> Option<Seq<char>>
    decreases cs.len(),
{
    if cs.len() == 0 {
        None
    } else if has_member_lc(cs[0].members, key) {
        Some(cs[0].id)
    } else {
        owner_lc(cs.drop_first(), key)
    }
}

/// A meaningful path segment: not empty, not a `{param}`.
pub open spec fn good_segment(s: Seq<char>) -> bool {
    s.len() > 0 && s[0] != '{'
}

/// The last meaningful segment of a list of segments.
pub open spec fn last_good(segs: Seq<Seq<char>>) -> Option<Seq<char>>
    decreases segs.len(),
{
    if segs.len() == 0 {
        None
    } else if good_segment(segs.last()) {
        Some(segs.last())
    } else {
        last_good(segs.drop_last())
    }
}

/// The component that handles an endpoint: the owner of the method named by
/// its `operationId`, or else of the method named by the last meaningful
/// segment of its path (names compared in lower case).
pub open spec fn endpoint_handler(cs: Seq<ComponentV>, e: EndpointV) -> Option<Seq<char>> {
    let by_op = match e.operation_id {
        Some(op) => owner_lc(cs, lowercase_of(op)),
        None => None,
    };
    match by_op {
        Some(h) => Some(h),
        None => match last_good(split_on(e.path, '/')) {
            Some(seg) => owner_lc(cs, lowercase_of(seg)),
            None => None,
        },
    }
}

pub open spec fn expose_edge(cs: Seq<ComponentV>, e: EndpointV) -> Seq<(Seq<char>, Seq<char>, RelationKind)> {
    match endpoint_handler(cs, e) {
        Some(c) => seq![(c, e.id, RelationKind::Exposes)],
        None => Seq::empty(),
    }
}

/// Endpoint to the component that exposes it.
pub open spec fn expose_edges(p: ProjectV) -> Seq<(Seq<char>, Seq<char>, RelationKind)> {
    flatten(p.endpoints.map_values(|e: EndpointV| expose_edge(p.components, e)))
}

pub open spec fn table_key(t: TableV) -> Seq<(Seq<char>, Seq<char>)> {
    if encode_utf8(t.name).len() >= 3 {
        seq![(lowercase_of(t.name), t.id)]
    } else {
        Seq::empty()
    }
}

/// The tables worth looking for: names of at least three bytes, in lower
/// case, with their ids.
pub open spec fn table_keys(ts: Seq<TableV>) -> Seq<(Seq<char>, Seq<char>)> {
    flatten(ts.map_values(|t: TableV| table_key(t)))
}

/// The text of the file at `path` (relative to `root`), empty when it is
/// not among the files or cannot be read.
pub open spec fn file_content(files: Seq<SourceFile>, root: Seq<char>, path: Seq<char>) -> Seq<char>
    decreases files.len(),
{
    if files.len() == 0 {
        Seq::empty()
    } else if rel_of(root, files[0].path@) == path {
        match files[0].text {
            Some(t) => t@,
            None => Seq::empty(),
        }
    } else {
        file_content(files.drop_first(), root, path)
    }
}

pub open spec fn ref_edge(c: ComponentV, k: (Seq<char>, Seq<char>), content: Seq<char>) -> Seq<(Seq<char>, Seq<char>, RelationKind)> {
    if scan_word(content, k.0, 0) {
        seq![(c.id, k.1, RelationKind::References)]
    } else {
        Seq::empty()
    }
}

pub open spec fn component_refs(c: ComponentV, keys: Seq<(Seq<char>, Seq<char>)>, files: Seq<SourceFile>, root: Seq<char>) -> Seq<(Seq<char>, Seq<char>, RelationKind)> {
    if c.path.len() == 0 {
        Seq::empty()
    } else {
        let content = lowercase_of(file_content(files, root, c.path));
        flatten(keys.map_values(|k: (Seq<char>, Seq<char>)| ref_edge(c, k, content)))
    }
}

/// Component to table when the component's file names the table as a whole
/// word.
pub open spec fn reference_edges(p: ProjectV, files: Seq<SourceFile>, root: Seq<char>) -> Seq<(Seq<char>, Seq<char>, RelationKind)> {
    if p.tables.len() == 0 {
        Seq::empty()
    } else {
        flatten(
            p.components.map_values(
                |c: ComponentV| component_refs(c, table_keys(p.tables), files, root),
            ),
        )
    }
}

/// Each edge once, in order of first appearance.
pub open spec fn dedup_edges(s: Seq<(Seq<char>, Seq<char>, RelationKind)>) -> Seq<(Seq<char>, Seq<char>, RelationKind)>
    decreases s.len(),
{
    if s.len() == 0 {
        Seq::empty()
    } else {
        let d = dedup_edges(s.drop_last());
        if d.contains(s.last()) {
            d
        } else {
            d.push(s.last())
        }
    }
}

pub open spec fn edge_relation(e: (Seq<char>, Seq<char>, RelationKind)) -> RelationV {
    RelationV { from: e.0, to: e.1, kind: e.2 }
}

/// The edges of the application flow, each once.
pub open spec fn link_edges(p: ProjectV, files: Seq<SourceFile>, root: Seq<char>) -> Seq<(Seq<char>, Seq<char>, RelationKind)> {
    dedup_edges(expose_edges(p) + reference_edges(p, files, root))
}

fn owner_of_lc(cs: &Vec<crate::model::Component>, key: &str) -> (r: Option<String>)
    ensures
        match r {
            Some(s) => owner_lc(crate::model::components_view(cs@), key@) == Some(s@),
            None => owner_lc(crate::model::components_view(cs@), key@) is None,
        },
{
    let ghost v = crate::model::components_view(cs@);
    let mut i: usize = 0;
    assert(v.subrange(0, v.len() as int) =~= v);
    while i < cs.len()
        invariant
            v == crate::model::components_view(cs@),
            i <= v.len(),
            owner_lc(v, key@) == owner_lc(v.subrange(i as int, v.len() as int), key@),
        decreases v.len() - i,
    {
        let ghost rest = v.subrange(i as int, v.len() as int);
        assert(rest.drop_first() =~= v.subrange(i + 1, v.len() as int));
        assert(rest[0] == cs@[i as int]@);
        let ms = &cs[i].members;
        let mut j: usize = 0;
        while j < ms.len()
            invariant
                j <= ms@.len(),
                i < cs@.len(),
                v == crate::model::components_view(cs@),
                owner_lc(v, key@) == owner_lc(v.subrange(i as int, v.len() as int), key@),
                *ms == cs@[i as int].members,
                forall|k: int| 0 <= k < j ==> #[trigger] lowercase_of(ms@[k]@) != key@,
            decreases ms@.len() - j,
        {
            let l = to_lower(ms[j].as_str());
            if str_eq(l.as_str(), key) {
                assert(lowercase_of(views(ms@)[j as int]) == key@);
                assert(has_member_lc(v.subrange(i as int, v.len() as int)[0].members, key@));
                return Some(cs[i].id.clone());
            }
            j += 1;
        }
        assert(!has_member_lc(views(ms@), key@)) by {
            if has_member_lc(views(ms@), key@) {
                let k = choose|k: int| 0 <= k < views(ms@).len() && #[trigger] lowercase_of(views(ms@)[k]) == key@;
                assert(lowercase_of(ms@[k]@) == key@);
            }
        }
        i += 1;
    }
    None
}

fn last_good_segment(path: &str) -> (r: Option<String>)
    ensures
        match r {
            Some(s) => last_good(split_on(path@, '/')) == Some(s@),
            None => last_good(split_on(path@, '/')) is None,
        },
{
    let segs = split_char(path, '/');
    let ghost sv = views(segs@);
    let mut j = segs.len();
    assert(sv.subrange(0, sv.len() as int) =~= sv);
    while j > 0
        invariant
            sv == views(segs@),
            sv == split_on(path@, '/'),
            j <= sv.len(),
            last_good(sv) == last_good(sv.subrange(0, j as int)),
        decreases j,
    {
        let s = &segs[j - 1];
        assert(sv.subrange(0, j as int).drop_last() =~= sv.subrange(0, j - 1));
        assert(sv.subrange(0, j as int).last() == s@);
        if !s.as_str().is_empty() && !starts_with(s.as_str(), "{") {
            proof {
                reveal_strlit("{");
                if s@[0] == '{' {
                    assert(s@.subrange(0, 1) =~= "{"@);
                }
            }
            return Some(s.clone());
        }
        proof {
            reveal_strlit("{");
            if s@.len() > 0 && has_prefix(s@, "{"@) {
                assert(s@.subrange(0, 1)[0] == s@[0]);
            }
        }
        j -= 1;
    }
    None
}

fn content_of(files: &Vec<SourceFile>, root: &str, path: &str) -> (r: String)
    ensures
        r@ == file_content(files@, root@, path@),
{
    let mut i: usize = 0;
    assert(files@.subrange(0, files@.len() as int) =~= files@);
    while i < files.len()
        invariant
            i <= files@.len(),
            file_content(files@, root@, path@) == file_content(files@.subrange(i as int, files@.len() as int), root@, path@),
        decreases files@.len() - i,
    {
        let ghost rest = files@.subrange(i as int, files@.len() as int);
        assert(rest.drop_first() =~= files@.subrange(i + 1, files@.len() as int));
        assert(rest[0] == files@[i as int]);
        let rp = rel(root, files[i].path.as_str());
        if str_eq(rp.as_str(), path) {
            return match &files[i].text {
                Some(t) => t.clone(),
                None => String::new(),
            };
        }
        i += 1;
    }
    String::new()
}

pub open spec fn edges_view(v: Seq<(String, String, RelationKind)>) -> Seq<(Seq<char>, Seq<char>, RelationKind)> {
    v.map_values(|e: (String, String, RelationKind)| (e.0@, e.1@, e.2))
}

/// Adds an edge unless it is already there.
fn push_edge(es: &mut Vec<(String, String, RelationKind)>, from: String, to: String, kind: RelationKind)
    ensures
        edges_view(final(es)@) == if edges_view(old(es)@).contains((from@, to@, kind)) {
            edges_view(old(es)@)
        } else {
            edges_view(old(es)@).push((from@, to@, kind))
        },
{
    let ghost ev = edges_view(es@);
    let mut i: usize = 0;
    while i < es.len()
        invariant
            i <= es@.len(),
            ev == edges_view(es@),
            forall|k: int| 0 <= k < i ==> #[trigger] ev[k] != (from@, to@, kind),
        decreases es@.len() - i,
    {
        if str_eq(es[i].0.as_str(), from.as_str()) && str_eq(es[i].1.as_str(), to.as_str()) && es[i].2 == kind {
            assert(ev[i as int] == (from@, to@, kind));
            return;
        }
        i += 1;
    }
    assert(!ev.contains((from@, to@, kind))) by {
        if ev.contains((from@, to@, kind)) {
            let k = choose|k: int| 0 <= k < ev.len() && ev[k] == (from@, to@, kind);
            assert(ev[k] != (from@, to@, kind));
        }
    }
    let ghost before = es@;
    es.push((from, to, kind));
    proof {
        lemma_map_push(before, |e: (String, String, RelationKind)| (e.0@, e.1@, e.2), es@.last());
    }
}

/// Adding the edges of `a + b` one by one is adding `a`, then `b`.
proof fn lemma_dedup_append(d0: Seq<(Seq<char>, Seq<char>, RelationKind)>, s: Seq<(Seq<char>, Seq<char>, RelationKind)>, x: (Seq<char>, Seq<char>, RelationKind))
    requires
        d0 == dedup_edges(s),
    ensures
        dedup_edges(s.push(x)) == if d0.contains(x) {
            d0
        } else {
            d0.push(x)
        },
{
    assert(s.push(x).drop_last() =~= s);
}

/// Links the layers of the application (the application flow): endpoint
/// to the component that handles it, component to the tables its file
/// names (see [`link_edges`]). Each edge is added once, in order of first
/// appearance.
pub fn link_layers(project: &mut Project, root: &str, files: &Vec<SourceFile>)
    ensures
        final(project)@ == with_relations(
            old(project)@,
            link_edges(old(project)@, files@, root@).map_values(
                |e: (Seq<char>, Seq<char>, RelationKind)| edge_relation(e),
            ),
        ),
{
    let ghost p0 = project@;
    let mut es: Vec<(String, String, RelationKind)> = Vec::new();
    // endpoint -> component
    let ghost per_e = p0.endpoints.map_values(|e: EndpointV| expose_edge(p0.components, e));
    for i in 0..project.endpoints.len()
        invariant
            project@ == p0,
            per_e == p0.endpoints.map_values(|e: EndpointV| expose_edge(p0.components, e)),
            edges_view(es@) == dedup_edges(flatten(per_e.take(i as int))),
    {
        proof {
            lemma_flatten_take(per_e, i as int);
        }
        let e = &project.endpoints[i];
        let by_op = match &e.operation_id {
            Some(op) => owner_of_lc(&project.components, to_lower(op.as_str()).as_str()),
            None => None,
        };
        let handler = match by_op {
            Some(h) => Some(h),
            None => match last_good_segment(e.path.as_str()) {
                Some(seg) => owner_of_lc(&project.components, to_lower(seg.as_str()).as_str()),
                None => None,
            },
        };
        match handler {
            Some(cid) => {
                let ghost d0 = edges_view(es@);
                assert(per_e[i as int] == seq![(cid@, e.id@, RelationKind::Exposes)]);
                proof {
                    lemma_dedup_append(d0, flatten(per_e.take(i as int)), (cid@, e.id@, RelationKind::Exposes));
                }
                assert(flatten(per_e.take(i as int)) + per_e[i as int] =~= flatten(per_e.take(i as int)).push((cid@, e.id@, RelationKind::Exposes)));
                push_edge(&mut es, cid, e.id.clone(), RelationKind::Exposes);
            },
            None => {
                assert(per_e[i as int] =~= Seq::<(Seq<char>, Seq<char>, RelationKind)>::empty());
                assert(flatten(per_e.take(i as int)) + per_e[i as int] =~= flatten(per_e.take(i as int)));
            },
        }
    }
    assert(per_e.take(project.endpoints.len() as int) =~= per_e);
    let ghost ex = expose_edges(p0);
    assert(edges_view(es@) == dedup_edges(ex));
    // component -> table
    if project.tables.len() > 0 {
        let mut keys: Vec<(String, String)> = Vec::new();
        let ghost per_k = p0.tables.map_values(|t: TableV| table_key(t));
        for i in 0..project.tables.len()
            invariant
                project@ == p0,
                per_k == p0.tables.map_values(|t: TableV| table_key(t)),
                keys@.map_values(|k: (String, String)| (k.0@, k.1@)) == flatten(per_k.take(i as int)),
                forall|j: int| 0 <= j < keys@.len() ==> (#[trigger] keys@[j]).0@.len() > 0,
        {
            proof {
                lemma_flatten_take(per_k, i as int);
            }
            let t = &project.tables[i];
            let ghost before = keys@;
            assert(t@ == p0.tables[i as int]);
            if crate::text::has_three_bytes(t.name.as_str()) {
                proof {
                    if t.name@.len() == 0 {
                        assert(encode_utf8(t.name@) =~= Seq::<u8>::empty());
                    }
                }
                let lname = to_lower(t.name.as_str());
                keys.push((lname, t.id.clone()));
                proof {
                    lemma_map_push(before, |k: (String, String)| (k.0@, k.1@), keys@.last());
                }
                assert(per_k[i as int] == seq![(lowercase_of(t.name@), t.id@)]);
            } else {
                assert(per_k[i as int] =~= Seq::<(Seq<char>, Seq<char>)>::empty());
            }
            assert(keys@.map_values(|k: (String, String)| (k.0@, k.1@)) =~= before.map_values(|k: (String, String)| (k.0@, k.1@)) + per_k[i as int]);
        }
        assert(per_k.take(project.tables.len() as int) =~= per_k);
        let ghost kv = keys@.map_values(|k: (String, String)| (k.0@, k.1@));
        assert(kv == table_keys(p0.tables));
        let ghost per_c = p0.components.map_values(|c: ComponentV| component_refs(c, kv, files@, root@));
        for i in 0..project.components.len()
            invariant
                project@ == p0,
                kv == keys@.map_values(|k: (String, String)| (k.0@, k.1@)),
                forall|j: int| 0 <= j < keys@.len() ==> (#[trigger] keys@[j]).0@.len() > 0,
                per_c == p0.components.map_values(|c: ComponentV| component_refs(c, kv, files@, root@)),
                edges_view(es@) == dedup_edges(ex + flatten(per_c.take(i as int))),
        {
            proof {
                lemma_flatten_take(per_c, i as int);
            }
            let c = &project.components[i];
            assert(c@ == p0.components[i as int]);
            if c.path.as_str().is_empty() {
                assert(per_c[i as int] =~= Seq::<(Seq<char>, Seq<char>, RelationKind)>::empty());
                assert(ex + flatten(per_c.take(i + 1)) =~= ex + flatten(per_c.take(i as int)));
            } else {
                let content = to_lower(content_of(files, root, c.path.as_str()).as_str());
                let ghost inner = kv.map_values(|k: (Seq<char>, Seq<char>)| ref_edge(c@, k, content@));
                assert(per_c[i as int] == flatten(inner));
                let ghost base = ex + flatten(per_c.take(i as int));
                for j in 0..keys.len()
                    invariant
                        kv == keys@.map_values(|k: (String, String)| (k.0@, k.1@)),
                        forall|q: int| 0 <= q < keys@.len() ==> (#[trigger] keys@[q]).0@.len() > 0,
                        inner == kv.map_values(|k: (Seq<char>, Seq<char>)| ref_edge(c@, k, content@)),
                        edges_view(es@) == dedup_edges(base + flatten(inner.take(j as int))),
                {
                    proof {
                        lemma_flatten_take(inner, j as int);
                    }
                    assert(keys@[j as int].0@.len() > 0);
                    if contains_word(content.as_str(), keys[j].0.as_str()) {
                        let ghost d0 = edges_view(es@);
                        let ghost x = (c.id@, keys@[j as int].1@, RelationKind::References);
                        assert(inner[j as int] == seq![x]);
                        proof {
                            lemma_dedup_append(d0, base + flatten(inner.take(j as int)), x);
                        }
                        assert(base + flatten(inner.take(j + 1)) =~= (base + flatten(inner.take(j as int))).push(x));
                        push_edge(&mut es, c.id.clone(), keys[j].1.clone(), RelationKind::References);
                    } else {
                        assert(inner[j as int] =~= Seq::<(Seq<char>, Seq<char>, RelationKind)>::empty());
                        assert(base + flatten(inner.take(j + 1)) =~= base + flatten(inner.take(j as int)));
                    }
                }
                assert(inner.take(keys.len() as int) =~= inner);
                assert(ex + flatten(per_c.take(i + 1)) =~= base + flatten(inner));
            }
        }
        assert(per_c.take(project.components.len() as int) =~= per_c);
        assert(reference_edges(p0, files@, root@) == flatten(per_c));
    } else {
        assert(ex + reference_edges(p0, files@, root@) =~= ex);
    }
    let ghost ev = edges_view(es@);
    let ghost rv = project.relations@;
    let mut rels: Vec<Relation> = Vec::new();
    for i in 0..es.len()
        invariant
            ev == edges_view(es@),
            relations_view(rels@) == ev.take(i as int).map_values(|e: (Seq<char>, Seq<char>, RelationKind)| edge_relation(e)),
    {
        let ghost before = rels@;
        rels.push(Relation { from: es[i].0.clone(), to: es[i].1.clone(), kind: es[i].2 });
        proof {
            lemma_map_push(before, |r: Relation| r@, rels@.last());
        }
        assert(ev.take(i + 1).map_values(|e: (Seq<char>, Seq<char>, RelationKind)| edge_relation(e)) =~= ev.take(i as int).map_values(|e: (Seq<char>, Seq<char>, RelationKind)| edge_relation(e)).push(edge_relation(ev[i as int])));
    }
    assert(ev.take(es.len() as int) =~= ev);
    project.relations.append(&mut rels);
    assert(relations_view(project.relations@) =~= relations_view(rv) + ev.map_values(|e: (Seq<char>, Seq<char>, RelationKind)| edge_relation(e)));
}

// ---------------------------------------------------------------------------
// The whole analysis
// ---------------------------------------------------------------------------

/// An empty project attached to a root folder.
pub open spec fn start_project(root: Seq<char>, name: Seq<char>) -> ProjectV {
    ProjectV {
        root,
        name,
        components: Seq::empty(),
        endpoints: Seq::empty(),
        services: Seq::empty(),
        tables: Seq::empty(),
        dependencies: Seq::empty(),
        relations: Seq::empty(),
        stats: StatsV { files: 0, lines_of_code: 0, by_extension: Seq::empty() },
    }
}

/// The name of the root folder, or `progetto` when it has none.
pub open spec fn project_name(name: Option<Seq<char>>) -> Seq<char> {
    match name {
        Some(n) => n,
        None => "progetto"@,
    }
}

/// What the analysis of `files` gives, step by step: statistics, the Git
/// remote, dependencies, C# and Java components, then the C#, Java,
/// TypeScript, Python and Go syntax trees (types and calls), OpenAPI
/// endpoints, Compose services, Kubernetes units, configuration files,
/// database tables; then the derived relations and the layers of the
/// application flow.
pub open spec fn analysis(
    root: Seq<char>,
    name: Option<Seq<char>>,
    files: Seq<SourceFile>,
    is_repo: bool,
    remote: Option<Seq<char>>,
) -> ProjectV {
    let p0 = start_project(root, project_name(name));
    let p1 = with_stats(p0, counted(p0.stats, files));
    let p2 = if is_repo {
        with_remote(p1, remote)
    } else {
        p1
    };
    let p3 = with_dependencies(p2, flatten(files.map_values(|f: SourceFile| file_dependencies(root, f))));
    let p4 = with_components(
        p3,
        push_all_unique(
            p3.components,
            flatten(files.map_values(|f: SourceFile| code_candidates(Flavor::CSharp, root, f))),
        ),
    );
    let p5 = with_components(
        p4,
        push_all_unique(
            p4.components,
            flatten(files.map_values(|f: SourceFile| code_candidates(Flavor::Java, root, f))),
        ),
    );
    let p5c = with_language(p5, files, Lang::CSharp, root);
    let p5j = with_language(p5c, files, Lang::Java, root);
    let p6 = with_language(p5j, files, Lang::TypeScript, root);
    let p7 = with_language(p6, files, Lang::Python, root);
    let p8 = with_language(p7, files, Lang::Go, root);
    let p9 = with_endpoints(p8, flatten(files.map_values(|f: SourceFile| file_endpoints(root, f))));
    let p10 = with_services(p9, flatten(files.map_values(|f: SourceFile| file_services(root, f))));
    let p11 = with_services(p10, flatten(files.map_values(|f: SourceFile| file_units(root, f))));
    let p12 = with_more_components(
        p11,
        flatten(files.map_values(|f: SourceFile| config_component(root, f))),
    );
    let p13 = with_tables(p12, flatten(files.map_values(|f: SourceFile| file_tables(f))));
    let p14 = with_relations(p13, derived_edges(p13));
    with_relations(
        p14,
        link_edges(p14, files, root).map_values(|e: (Seq<char>, Seq<char>, RelationKind)| edge_relation(e)),
    )
}

/// Analyses a project from its root folder, given the files found under it
/// (sorted), the name of the folder, and what `git` answered about its
/// remote. A root that is not a folder is refused.
pub fn analyze(
    root: &str,
    root_is_dir: bool,
    name: Option<String>,
    files: &Vec<SourceFile>,
    is_repo: bool,
    remote: Option<String>,
) -> (r: Result<Project, Error>)
    requires
        total_loc(files@) <= usize::MAX,
    ensures
        !root_is_dir ==> (r matches Err(Error::BadPath(p)) && p@ == root@),
        root_is_dir ==> (r matches Ok(p) && p@ == analysis(root@, opt_view(name), files@, is_repo, opt_view(remote))),
{
    if !root_is_dir {
        return Err(Error::BadPath(owned(root)));
    }
    let pname = match name {
        Some(n) => n,
        None => owned("progetto"),
    };
    let mut project = Project::new(root, pname.as_str());
    assert(project@ == start_project(root@, project_name(opt_view(name)))) by {
        assert(project@.components =~= Seq::<ComponentV>::empty());
        assert(project@.endpoints =~= Seq::<EndpointV>::empty());
        assert(project@.services =~= Seq::<ServiceV>::empty());
        assert(project@.tables =~= Seq::<TableV>::empty());
        assert(project@.dependencies =~= Seq::<crate::model::DependencyV>::empty());
        assert(project@.relations =~= Seq::<RelationV>::empty());
        assert(project@.stats.by_extension =~= Seq::<(Seq<char>, nat)>::empty());
    }
    crate::analyzers::stats::collect(&mut project, files);
    crate::analyzers::git::collect(&mut project, is_repo, remote);
    crate::analyzers::deps::collect(&mut project, root, files);
    crate::analyzers::csharp::collect(&mut project, root, files);
    crate::analyzers::java::collect(&mut project, root, files);
    crate::analyzers::treesitter::collect(&mut project, root, files, Lang::CSharp);
    crate::analyzers::treesitter::collect(&mut project, root, files, Lang::Java);
    crate::analyzers::treesitter::collect(&mut project, root, files, Lang::TypeScript);
    crate::analyzers::treesitter::collect(&mut project, root, files, Lang::Python);
    crate::analyzers::treesitter::collect(&mut project, root, files, Lang::Go);
    crate::analyzers::openapi::collect(&mut project, root, files);
    crate::analyzers::docker_compose::collect(&mut project, root, files);
    crate::analyzers::kubernetes::collect(&mut project, root, files);
    crate::analyzers::config::collect(&mut project, root, files);
    crate::analyzers::database::collect(&mut project, root, files);
    derive_relations(&mut project);
    link_layers(&mut project, root, files);
    Ok(project)
}

} // verus!
