//! Simple full-text search over the elements of a project: a
//! case-insensitive match on names and paths of every entity.

use vstd::prelude::*;
use crate::model::{Column, ColumnV, ComponentV, DependencyV, EndpointV, Project, ServiceV, TableV};
use crate::text::{ascii_fold, lemma_trim_fold, concat2, contains, contains_seq, flatten, lemma_flatten_take, lemma_map_push, lowercase_of, or_empty, owned, str_or_empty, to_lower, trim, trim_seq, views};

verus! {

broadcast use vstd::seq_lib::group_seq_properties;

/// A search result.
pub struct Hit {
    /// Category: "component", "endpoint", "service", "table", "dependency".
    pub kind: String,
    /// Label to show.
    pub label: String,
    /// Where the element is (file or source).
    pub location: String,
}

pub struct HitV {
    pub kind: Seq<char>,
    pub label: Seq<char>,
    pub location: Seq<char>,
}

impl View for Hit {
    type V = HitV;

    open spec fn view(&self) -> HitV {
        HitV { kind: self.kind@, label: self.label@, location: self.location@ }
    }
}

pub open spec fn hits_view(v: Seq<Hit>) -> Seq<HitV> {
    v.map_values(|h: Hit| h@)
}

/// `s` matches the (trimmed, lower-case) query `q`.
pub open spec fn matches(s: Seq<char>, q: Seq<char>) -> bool {
    contains_seq(lowercase_of(s), q)
}

pub open spec fn opt_matches(s: Option<Seq<char>>, q: Seq<char>) -> bool {
    match s {
        Some(x) => matches(x, q),
        None => false,
    }
}

pub open spec fn any_matches(ss: Seq<Seq<char>>, q: Seq<char>) -> bool {
    exists|i: int| 0 <= i < ss.len() && matches(#[trigger] ss[i], q)
}

pub open spec fn component_hit(c: ComponentV, q: Seq<char>) -> Seq<HitV> {
    if matches(c.name, q) || matches(c.path, q) || any_matches(c.members, q) {
        seq![HitV { kind: "component"@, label: c.name, location: c.path }]
    } else {
        Seq::empty()
    }
}

pub open spec fn endpoint_hit(e: EndpointV, q: Seq<char>) -> Seq<HitV> {
    if matches(e.path, q) || matches(e.method, q) || opt_matches(e.operation_id, q) {
        seq![HitV { kind: "endpoint"@, label: e.method + " "@ + e.path, location: e.source }]
    } else {
        Seq::empty()
    }
}

pub open spec fn service_hit(s: ServiceV, q: Seq<char>) -> Seq<HitV> {
    if matches(s.name, q) || opt_matches(s.image, q) {
        seq![HitV { kind: "service"@, label: s.name, location: s.source }]
    } else {
        Seq::empty()
    }
}

pub open spec fn table_hit(t: TableV, q: Seq<char>) -> Seq<HitV> {
    if matches(t.name, q) || any_matches(t.columns.map_values(|c: ColumnV| c.name), q) {
        seq![
            HitV {
                kind: "table"@,
                label: t.name,
                location: match t.schema {
                    Some(s) => s,
                    None => Seq::empty(),
                },
            },
        ]
    } else {
        Seq::empty()
    }
}

pub open spec fn dependency_hit(d: DependencyV, q: Seq<char>) -> Seq<HitV> {
    if matches(d.name, q) {
        seq![HitV { kind: "dependency"@, label: d.name, location: d.declared_in }]
    } else {
        Seq::empty()
    }
}

/// The hits of a project for the query `q` (already trimmed and lower
/// case): components, endpoints, services, tables, dependencies, each in
/// the project's order.
pub open spec fn project_hits(p: crate::model::ProjectV, q: Seq<char>) -> Seq<HitV> {
    flatten(p.components.map_values(|c: ComponentV| component_hit(c, q))) + flatten(
        p.endpoints.map_values(|e: EndpointV| endpoint_hit(e, q)),
    ) + flatten(p.services.map_values(|s: ServiceV| service_hit(s, q))) + flatten(
        p.tables.map_values(|t: TableV| table_hit(t, q)),
    ) + flatten(p.dependencies.map_values(|d: DependencyV| dependency_hit(d, q)))
}

/// The query as it is compared: trimmed, in lower case.
pub open spec fn normal_query(query: Seq<char>) -> Seq<char> {
    lowercase_of(trim_seq(query))
}

/// The search results: none for a blank query.
pub open spec fn search_spec(p: crate::model::ProjectV, query: Seq<char>) -> Seq<HitV> {
    let q = normal_query(query);
    if q.len() == 0 {
        Seq::empty()
    } else {
        project_hits(p, q)
    }
}

fn m(s: &str, q: &str) -> (b: bool)
    ensures
        b == matches(s@, q@),
{
    let l = to_lower(s);
    contains(l.as_str(), q)
}

fn any_m(ss: &Vec<String>, q: &str) -> (b: bool)
    ensures
        b == any_matches(views(ss@), q@),
{
    let mut i: usize = 0;
    while i < ss.len()
        invariant
            i <= ss@.len(),
            forall|j: int| 0 <= j < i ==> !matches(#[trigger] views(ss@)[j], q@),
        decreases ss@.len() - i,
    {
        if m(ss[i].as_str(), q) {
            assert(matches(views(ss@)[i as int], q@));
            return true;
        }
        i += 1;
    }
    false
}

fn any_column(cs: &Vec<Column>, q: &str) -> (b: bool)
    ensures
        b == any_matches(cs@.map_values(|c: Column| c@).map_values(|c: ColumnV| c.name), q@),
{
    let ghost names = cs@.map_values(|c: Column| c@).map_values(|c: ColumnV| c.name);
    let mut i: usize = 0;
    while i < cs.len()
        invariant
            i <= cs@.len(),
            names == cs@.map_values(|c: Column| c@).map_values(|c: ColumnV| c.name),
            forall|j: int| 0 <= j < i ==> !matches(#[trigger] names[j], q@),
        decreases cs@.len() - i,
    {
        if m(cs[i].name.as_str(), q) {
            assert(matches(names[i as int], q@));
            return true;
        }
        i += 1;
    }
    false
}

fn opt_m(s: &Option<String>, q: &str) -> (b: bool)
    ensures
        b == opt_matches(crate::text::opt_view(*s), q@),
{
    match s {
        Some(x) => m(x.as_str(), q),
        None => false,
    }
}

fn push_hit(hits: &mut Vec<Hit>, kind: &str, label: String, location: String)
    ensures
        hits_view(final(hits)@) == hits_view(old(hits)@).push(HitV { kind: kind@, label: label@, location: location@ }),
{
    let ghost before = hits@;
    hits.push(Hit { kind: owned(kind), label, location });
    proof {
        lemma_map_push(before, |h: Hit| h@, hits@.last());
    }
}

/// Searches `query` among all entities of the project (see [`search_spec`]).
pub fn search(project: &Project, query: &str) -> (r: Vec<Hit>)
    ensures
        hits_view(r@) == search_spec(project@, query@),
        hits_view(r@) == search_spec(project@, ascii_fold(query@)),
{
    let t = trim(query);
    let q = to_lower(t.as_str());
    proof {
        lemma_trim_fold(query@);
        assert(normal_query(ascii_fold(query@)) == q@);
    }
    let mut hits: Vec<Hit> = Vec::new();
    if q.as_str().is_empty() {
        assert(hits_view(hits@) =~= Seq::<HitV>::empty());
        return hits;
    }
    let ghost qv = q@;
    let ghost p = project@;
    let ghost pc = p.components.map_values(|c: ComponentV| component_hit(c, qv));
    for i in 0..project.components.len()
        invariant
            qv == q@,
            p == project@,
            pc == p.components.map_values(|c: ComponentV| component_hit(c, qv)),
            hits_view(hits@) == flatten(pc.take(i as int)),
    {
        proof {
            lemma_flatten_take(pc, i as int);
        }
        let c = &project.components[i];
        assert(c@ == p.components[i as int]);
        let ghost before = hits_view(hits@);
        if m(c.name.as_str(), q.as_str()) || m(c.path.as_str(), q.as_str()) || any_m(&c.members, q.as_str()) {
            push_hit(&mut hits, "component", c.name.clone(), c.path.clone());
        }
        assert(hits_view(hits@) =~= before + pc[i as int]);
    }
    assert(pc.take(project.components.len() as int) =~= pc);
    let ghost a1 = hits_view(hits@);
    let ghost pe = p.endpoints.map_values(|e: EndpointV| endpoint_hit(e, qv));
    for i in 0..project.endpoints.len()
        invariant
            qv == q@,
            p == project@,
            pe == p.endpoints.map_values(|e: EndpointV| endpoint_hit(e, qv)),
            hits_view(hits@) == a1 + flatten(pe.take(i as int)),
    {
        proof {
            lemma_flatten_take(pe, i as int);
        }
        let e = &project.endpoints[i];
        assert(e@ == p.endpoints[i as int]);
        let ghost before = hits_view(hits@);
        if m(e.path.as_str(), q.as_str()) || m(e.method.as_str(), q.as_str()) || opt_m(&e.operation_id, q.as_str()) {
            let a = concat2(e.method.as_str(), " ");
            let label = concat2(a.as_str(), e.path.as_str());
            push_hit(&mut hits, "endpoint", label, e.source.clone());
        }
        assert(hits_view(hits@) =~= before + pe[i as int]);
    }
    assert(pe.take(project.endpoints.len() as int) =~= pe);
    let ghost a2 = hits_view(hits@);
    let ghost ps = p.services.map_values(|s: ServiceV| service_hit(s, qv));
    for i in 0..project.services.len()
        invariant
            qv == q@,
            p == project@,
            ps == p.services.map_values(|s: ServiceV| service_hit(s, qv)),
            hits_view(hits@) == a2 + flatten(ps.take(i as int)),
    {
        proof {
            lemma_flatten_take(ps, i as int);
        }
        let s = &project.services[i];
        assert(s@ == p.services[i as int]);
        let ghost before = hits_view(hits@);
        if m(s.name.as_str(), q.as_str()) || opt_m(&s.image, q.as_str()) {
            push_hit(&mut hits, "service", s.name.clone(), s.source.clone());
        }
        assert(hits_view(hits@) =~= before + ps[i as int]);
    }
    assert(ps.take(project.services.len() as int) =~= ps);
    let ghost a3 = hits_view(hits@);
    let ghost pt = p.tables.map_values(|t: TableV| table_hit(t, qv));
    for i in 0..project.tables.len()
        invariant
            qv == q@,
            p == project@,
            pt == p.tables.map_values(|t: TableV| table_hit(t, qv)),
            hits_view(hits@) == a3 + flatten(pt.take(i as int)),
    {
        proof {
            lemma_flatten_take(pt, i as int);
        }
        let tb = &project.tables[i];
        assert(tb@ == p.tables[i as int]);
        let ghost before = hits_view(hits@);
        if m(tb.name.as_str(), q.as_str()) || any_column(&tb.columns, q.as_str()) {
            push_hit(&mut hits, "table", tb.name.clone(), str_or_empty(&tb.schema));
        }
        assert(hits_view(hits@) =~= before + pt[i as int]);
    }
    assert(pt.take(project.tables.len() as int) =~= pt);
    let ghost a4 = hits_view(hits@);
    let ghost pd = p.dependencies.map_values(|d: DependencyV| dependency_hit(d, qv));
    for i in 0..project.dependencies.len()
        invariant
            qv == q@,
            p == project@,
            pd == p.dependencies.map_values(|d: DependencyV| dependency_hit(d, qv)),
            hits_view(hits@) == a4 + flatten(pd.take(i as int)),
    {
        proof {
            lemma_flatten_take(pd, i as int);
        }
        let d = &project.dependencies[i];
        assert(d@ == p.dependencies[i as int]);
        let ghost before = hits_view(hits@);
        if m(d.name.as_str(), q.as_str()) {
            push_hit(&mut hits, "dependency", d.name.clone(), d.declared_in.clone());
        }
        assert(hits_view(hits@) =~= before + pd[i as int]);
    }
    assert(pd.take(project.dependencies.len() as int) =~= pd);
    hits
}

} // verus!
