//! Graphviz (DOT) diagrams, suited to graphs: dependencies, application
//! flow, components and services.

use vstd::prelude::*;
use super::{clean, clean_text, first_n};
use crate::Error;
use crate::model::{ComponentV, DependencyV, EndpointV, Project, ProjectV, RelationKind, RelationV, ServiceV, TableV};
use crate::text::{concat2, flatten, has_prefix, lemma_flatten_take, owned, replace, replace_char, starts_with, str_eq};

verus! {

broadcast use vstd::seq_lib::group_seq_properties;

/// A safe DOT id: `n_` and the cleaned name.
pub open spec fn dot_id(s: Seq<char>) -> Seq<char> {
    "n_"@ + clean(s)
}

/// A label escaped for DOT: backslashes doubled, quotes escaped.
pub open spec fn esc_spec(s: Seq<char>) -> Seq<char> {
    replace_char(replace_char(s, '\\', "\\\\"@), '"', "\\\""@)
}

pub open spec fn dot_dependency_lines(root: Seq<char>, d: DependencyV) -> Seq<char> {
    let n = dot_id(d.ecosystem + "_"@ + d.name);
    "  "@ + root + " -> "@ + n + ";\n"@ + ("  "@ + n + " [label=\""@ + esc_spec(d.name) + "\"];\n"@)
}

/// Dependency graph: the project towards its first 80 dependencies.
pub open spec fn dot_dependency_diagram(p: ProjectV) -> Seq<char> {
    let root = dot_id(p.name);
    "digraph dependencies {\n  rankdir=LR;\n  node [shape=box, style=rounded];\n"@ + ("  "@ + root
        + " [label=\""@ + esc_spec(p.name) + "\", shape=ellipse];\n"@) + flatten(
        first_n(p.dependencies, 80).map_values(|d: DependencyV| dot_dependency_lines(root, d)),
    ) + "}\n"@
}

pub open spec fn dot_service(s: ServiceV) -> Seq<char> {
    "  "@ + dot_id(s.id) + " [label=\""@ + esc_spec(s.name) + "\"];\n"@
}

pub open spec fn dot_depends(r: RelationV) -> Seq<char> {
    if r.kind == RelationKind::DependsOn {
        "  "@ + dot_id(r.from) + " -> "@ + dot_id(r.to) + ";\n"@
    } else {
        Seq::empty()
    }
}

/// Component diagram: services and depends-on edges.
pub open spec fn dot_component_diagram(p: ProjectV) -> Seq<char> {
    "digraph components {\n  node [shape=component];\n"@ + flatten(
        p.services.map_values(|s: ServiceV| dot_service(s)),
    ) + flatten(p.relations.map_values(|r: RelationV| dot_depends(r))) + "}\n"@
}

/// Labels of the flow, as a map filled with components, then endpoints,
/// then tables keeps them: the last one inserted for an id wins.
pub open spec fn last_table_label(ts: Seq<TableV>, key: Seq<char>) -> Option<Seq<char>>
    decreases ts.len(),
{
    if ts.len() == 0 {
        None
    } else if ts.last().id == key {
        Some(ts.last().name)
    } else {
        last_table_label(ts.drop_last(), key)
    }
}

pub open spec fn last_endpoint_label(es: Seq<EndpointV>, key: Seq<char>) -> Option<Seq<char>>
    decreases es.len(),
{
    if es.len() == 0 {
        None
    } else if es.last().id == key {
        Some(es.last().method + " "@ + es.last().path)
    } else {
        last_endpoint_label(es.drop_last(), key)
    }
}

pub open spec fn flow_label(p: ProjectV, key: Seq<char>) -> Option<Seq<char>> {
    match last_table_label(p.tables, key) {
        Some(l) => Some(l),
        None => match last_endpoint_label(p.endpoints, key) {
            Some(l) => Some(l),
            None => super::last_component_name(p.components, key),
        },
    }
}

pub open spec fn emit(a: Seq<char>, b: Seq<char>, la: Seq<char>, lb: Seq<char>) -> Seq<char> {
    "  "@ + dot_id(a) + " [label=\""@ + esc_spec(la) + "\"];\n"@ + ("  "@ + dot_id(b) + " [label=\""@
        + esc_spec(lb) + "\"];\n"@) + ("  "@ + dot_id(a) + " -> "@ + dot_id(b) + ";\n"@)
}

/// The flow lines of one relation: component to endpoint it exposes
/// (drawn from the endpoint), component to table it references.
pub open spec fn flow_lines(p: ProjectV, r: RelationV) -> Seq<char> {
    match (flow_label(p, r.from), flow_label(p, r.to)) {
        (Some(lf), Some(lt)) => if r.kind == RelationKind::Exposes {
            emit(r.to, r.from, lt, lf)
        } else if r.kind == RelationKind::References && has_prefix(r.to, "table:"@) {
            emit(r.from, r.to, lf, lt)
        } else {
            Seq::empty()
        },
        _ => Seq::empty(),
    }
}

/// Application flow: endpoint, component, table.
pub open spec fn dot_flow_diagram(p: ProjectV) -> Seq<char> {
    "digraph flow {\n  rankdir=LR;\n  node [shape=box, style=rounded];\n"@ + flatten(
        p.relations.map_values(|r: RelationV| flow_lines(p, r)),
    ) + "}\n"@
}

/// The DOT text of a diagram kind, when the kind is known.
pub open spec fn dot_spec(p: ProjectV, kind: Seq<char>) -> Option<Seq<char>> {
    if kind == "dependency"@ {
        Some(dot_dependency_diagram(p))
    } else if kind == "flow"@ {
        Some(dot_flow_diagram(p))
    } else if kind == "component"@ {
        Some(dot_component_diagram(p))
    } else {
        None
    }
}

// ---------------------------------------------------------------------------
// Implementation
// ---------------------------------------------------------------------------

pub fn id(s: &str) -> (r: String)
    ensures
        r@ == dot_id(s@),
{
    concat2("n_", clean_text(s).as_str())
}

/// Escapes a DOT label (see [`esc_spec`]).
pub fn esc(s: &str) -> (r: String)
    ensures
        r@ == esc_spec(s@),
{
    let a = replace(s, '\\', "\\\\");
    replace(a.as_str(), '"', "\\\"")
}

fn dependency(p: &Project) -> (r: String)
    ensures
        r@ == dot_dependency_diagram(p@),
{
    let root = id(p.name.as_str());
    let mut s = owned("digraph dependencies {\n  rankdir=LR;\n  node [shape=box, style=rounded];\n");
    s.append("  ");
    s.append(root.as_str());
    s.append(" [label=\"");
    s.append(esc(p.name.as_str()).as_str());
    s.append("\", shape=ellipse];\n");
    let ghost head = s@;
    let n: usize = if p.dependencies.len() <= 80 { p.dependencies.len() } else { 80 };
    let ghost ds = first_n(p@.dependencies, 80);
    let ghost per = ds.map_values(|d: DependencyV| dot_dependency_lines(root@, d));
    for i in 0..n
        invariant
            n == ds.len(),
            n <= p.dependencies.len(),
            ds == first_n(p@.dependencies, 80),
            per == ds.map_values(|d: DependencyV| dot_dependency_lines(root@, d)),
            s@ == head + flatten(per.take(i as int)),
    {
        proof {
            lemma_flatten_take(per, i as int);
        }
        let d = &p.dependencies[i];
        assert(ds[i as int] == d@);
        let ghost before = s@;
        let a = concat2(d.ecosystem.as_str(), "_");
        let b = concat2(a.as_str(), d.name.as_str());
        let nid = id(b.as_str());
        s.append("  ");
        s.append(root.as_str());
        s.append(" -> ");
        s.append(nid.as_str());
        s.append(";\n");
        s.append("  ");
        s.append(nid.as_str());
        s.append(" [label=\"");
        s.append(esc(d.name.as_str()).as_str());
        s.append("\"];\n");
        assert(s@ =~= before + per[i as int]);
    }
    assert(per.take(n as int) =~= per);
    s.append("}\n");
    s
}

fn component(p: &Project) -> (r: String)
    ensures
        r@ == dot_component_diagram(p@),
{
    let mut s = owned("digraph components {\n  node [shape=component];\n");
    let ghost pp = p@;
    let ghost head0 = s@;
    let ghost ps = pp.services.map_values(|x: ServiceV| dot_service(x));
    for i in 0..p.services.len()
        invariant
            pp == p@,
            ps == pp.services.map_values(|x: ServiceV| dot_service(x)),
            s@ == head0 + flatten(ps.take(i as int)),
    {
        proof {
            lemma_flatten_take(ps, i as int);
        }
        let sv = &p.services[i];
        assert(pp.services[i as int] == sv@);
        let ghost before = s@;
        s.append("  ");
        s.append(id(sv.id.as_str()).as_str());
        s.append(" [label=\"");
        s.append(esc(sv.name.as_str()).as_str());
        s.append("\"];\n");
        assert(s@ =~= before + ps[i as int]);
    }
    assert(ps.take(p.services.len() as int) =~= ps);
    let ghost head = s@;
    let ghost pr = pp.relations.map_values(|x: RelationV| dot_depends(x));
    for i in 0..p.relations.len()
        invariant
            pp == p@,
            pr == pp.relations.map_values(|x: RelationV| dot_depends(x)),
            s@ == head + flatten(pr.take(i as int)),
    {
        proof {
            lemma_flatten_take(pr, i as int);
        }
        let r = &p.relations[i];
        assert(pp.relations[i as int] == r@);
        let ghost before = s@;
        if r.kind == RelationKind::DependsOn {
            s.append("  ");
            s.append(id(r.from.as_str()).as_str());
            s.append(" -> ");
            s.append(id(r.to.as_str()).as_str());
            s.append(";\n");
        }
        assert(s@ =~= before + pr[i as int]);
    }
    assert(pr.take(p.relations.len() as int) =~= pr);
    s.append("}\n");
    s
}

fn table_label(p: &Project, key: &str) -> (r: Option<String>)
    ensures
        match r {
            Some(s) => last_table_label(p@.tables, key@) == Some(s@),
            None => last_table_label(p@.tables, key@) is None,
        },
{
    let ghost ts = p@.tables;
    let mut j = p.tables.len();
    assert(ts.take(ts.len() as int) =~= ts);
    while j > 0
        invariant
            ts == p@.tables,
            j <= ts.len(),
            last_table_label(ts, key@) == last_table_label(ts.take(j as int), key@),
        decreases j,
    {
        assert(ts.take(j as int).drop_last() =~= ts.take(j - 1));
        assert(ts.take(j as int).last() == p.tables@[j - 1]@);
        if str_eq(p.tables[j - 1].id.as_str(), key) {
            return Some(p.tables[j - 1].name.clone());
        }
        j -= 1;
    }
    None
}

fn endpoint_label(p: &Project, key: &str) -> (r: Option<String>)
    ensures
        match r {
            Some(s) => last_endpoint_label(p@.endpoints, key@) == Some(s@),
            None => last_endpoint_label(p@.endpoints, key@) is None,
        },
{
    let ghost es = p@.endpoints;
    let mut j = p.endpoints.len();
    assert(es.take(es.len() as int) =~= es);
    while j > 0
        invariant
            es == p@.endpoints,
            j <= es.len(),
            last_endpoint_label(es, key@) == last_endpoint_label(es.take(j as int), key@),
        decreases j,
    {
        assert(es.take(j as int).drop_last() =~= es.take(j - 1));
        assert(es.take(j as int).last() == p.endpoints@[j - 1]@);
        if str_eq(p.endpoints[j - 1].id.as_str(), key) {
            let a = concat2(p.endpoints[j - 1].method.as_str(), " ");
            return Some(concat2(a.as_str(), p.endpoints[j - 1].path.as_str()));
        }
        j -= 1;
    }
    None
}

pub(crate) fn label_of(p: &Project, key: &str) -> (r: Option<String>)
    ensures
        match r {
            Some(s) => flow_label(p@, key@) == Some(s@),
            None => flow_label(p@, key@) is None,
        },
{
    match table_label(p, key) {
        Some(l) => Some(l),
        None => match endpoint_label(p, key) {
            Some(l) => Some(l),
            None => super::component_name(p, key),
        },
    }
}

fn label_line(a: &str, la: &str) -> (r: String)
    ensures
        r@ == "  "@ + dot_id(a@) + " [label=\""@ + esc_spec(la@) + "\"];\n"@,
{
    let mut r = owned("  ");
    r.append(id(a).as_str());
    r.append(" [label=\"");
    r.append(esc(la).as_str());
    r.append("\"];\n");
    r
}

fn edge_line(a: &str, b: &str) -> (r: String)
    ensures
        r@ == "  "@ + dot_id(a@) + " -> "@ + dot_id(b@) + ";\n"@,
{
    let mut r = owned("  ");
    r.append(id(a).as_str());
    r.append(" -> ");
    r.append(id(b).as_str());
    r.append(";\n");
    r
}

fn emit_lines(s: &mut String, a: &str, b: &str, la: &str, lb: &str)
    ensures
        final(s)@ == old(s)@ + emit(a@, b@, la@, lb@),
{
    let l1 = label_line(a, la);
    let l2 = label_line(b, lb);
    let l3 = edge_line(a, b);
    s.append(l1.as_str());
    s.append(l2.as_str());
    s.append(l3.as_str());
    assert(l1@ + l2@ + l3@ =~= emit(a@, b@, la@, lb@));
}

fn flow(p: &Project) -> (r: String)
    ensures
        r@ == dot_flow_diagram(p@),
{
    let mut s = owned("digraph flow {\n  rankdir=LR;\n  node [shape=box, style=rounded];\n");
    let ghost pp = p@;
    let ghost head = s@;
    let ghost pr = pp.relations.map_values(|x: RelationV| flow_lines(pp, x));
    for i in 0..p.relations.len()
        invariant
            pp == p@,
            pr == pp.relations.map_values(|x: RelationV| flow_lines(pp, x)),
            s@ == head + flatten(pr.take(i as int)),
    {
        proof {
            lemma_flatten_take(pr, i as int);
        }
        let r = &p.relations[i];
        assert(pp.relations[i as int] == r@);
        let ghost before = s@;
        match (label_of(p, r.from.as_str()), label_of(p, r.to.as_str())) {
            (Some(lf), Some(lt)) => {
                if r.kind == RelationKind::Exposes {
                    emit_lines(&mut s, r.to.as_str(), r.from.as_str(), lt.as_str(), lf.as_str());
                } else if r.kind == RelationKind::References && starts_with(r.to.as_str(), "table:") {
                    emit_lines(&mut s, r.from.as_str(), r.to.as_str(), lf.as_str(), lt.as_str());
                }
            },
            _ => {},
        }
        assert(s@ =~= before + pr[i as int]);
    }
    assert(pr.take(p.relations.len() as int) =~= pr);
    s.append("}\n");
    s
}

/// Generates the DOT source of a diagram kind (see [`dot_spec`]).
pub fn render(p: &Project, kind: &str) -> (r: Result<String, Error>)
    ensures
        match r {
            Ok(s) => dot_spec(p@, kind@) == Some(s@),
            Err(e) => dot_spec(p@, kind@) is None && (e matches Error::UnknownDiagram(m) && m@ == "dot: "@ + kind@),
        },
{
    if str_eq(kind, "dependency") {
        Ok(dependency(p))
    } else if str_eq(kind, "flow") {
        Ok(flow(p))
    } else if str_eq(kind, "component") {
        Ok(component(p))
    } else {
        Err(Error::UnknownDiagram(concat2("dot: ", kind)))
    }
}

} // verus!
