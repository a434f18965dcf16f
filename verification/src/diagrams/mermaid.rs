//! Mermaid diagrams from the project model.
//!
//! Kinds: `dependency` (dependency graph), `component` (services and their
//! relations), `er` (entity-relationship of the database), `class` (class
//! diagram with the calls between classes), `sequence` (draft flow from the
//! endpoints), `flow` (cross-layer flow: endpoint, component, table).

use vstd::prelude::*;
use super::{clean, clean_text, first_n};
use crate::Error;
use crate::model::{
    Column, ColumnV, ComponentKind, ComponentV, DependencyV, EndpointV, ForeignKeyV, Project,
    ProjectV, RelationKind, RelationV, ServiceV, TableV,
};
use crate::diagrams::dot::{flow_label, label_of};
use crate::ordered::pairs_view;
use crate::text::{has_prefix, starts_with, concat2, flatten, is_ascii_digit, keep, lemma_flatten_take, lemma_keep_take, or_empty, owned, str_eq, str_or_empty, to_chars};

verus! {

broadcast use vstd::seq_lib::group_seq_properties;

/// A safe Mermaid node id: the cleaned name, with `n_` in front when it is
/// empty or starts with an ASCII digit.
pub open spec fn mermaid_id(s: Seq<char>) -> Seq<char> {
    let c = clean(s);
    if c.len() == 0 || is_ascii_digit(c[0]) {
        "n_"@ + c
    } else {
        c
    }
}

pub open spec fn opt_or_empty(o: Option<Seq<char>>) -> Seq<char> {
    match o {
        Some(s) => s,
        None => Seq::empty(),
    }
}

// dependency ---------------------------------------------------------------

pub open spec fn dependency_line(root: Seq<char>, d: DependencyV) -> Seq<char> {
    "  "@ + root + " --> "@ + mermaid_id(d.ecosystem + "_"@ + d.name) + "[\""@ + d.name + "<br/>"@
        + opt_or_empty(d.version) + "\"]\n"@
}

/// Dependency graph: the project towards its first 60 dependencies.
pub open spec fn dependency_diagram(p: ProjectV) -> Seq<char> {
    let root = mermaid_id(p.name);
    "graph LR\n"@ + ("  "@ + root + "([\""@ + p.name + "\"])\n"@) + flatten(
        first_n(p.dependencies, 60).map_values(|d: DependencyV| dependency_line(root, d)),
    )
}

// component ----------------------------------------------------------------

pub open spec fn service_node(s: ServiceV) -> Seq<char> {
    "  "@ + mermaid_id(s.id) + "[\""@ + s.name + "<br/><small>"@ + opt_or_empty(s.image)
        + "</small>\"]\n"@
}

pub open spec fn depends_line(r: RelationV) -> Seq<char> {
    if r.kind == RelationKind::DependsOn {
        "  "@ + mermaid_id(r.from) + " --> "@ + mermaid_id(r.to) + "\n"@
    } else {
        Seq::empty()
    }
}

/// Component diagram: the services and their depends-on relations.
pub open spec fn component_diagram(p: ProjectV) -> Seq<char> {
    "graph TD\n"@ + flatten(p.services.map_values(|s: ServiceV| service_node(s))) + flatten(
        p.relations.map_values(|r: RelationV| depends_line(r)),
    ) + if p.services.len() == 0 {
        "  empty[\"Nessun servizio rilevato\"]\n"@
    } else {
        Seq::empty()
    }
}

// er -----------------------------------------------------------------------

pub open spec fn column_line(c: ColumnV) -> Seq<char> {
    "    "@ + mermaid_id(c.data_type) + " "@ + mermaid_id(c.name) + if c.primary_key {
        " PK"@
    } else {
        Seq::empty()
    } + "\n"@
}

pub open spec fn table_block(t: TableV) -> Seq<char> {
    "  "@ + mermaid_id(t.name) + " {\n"@ + flatten(
        first_n(t.columns, 30).map_values(|c: ColumnV| column_line(c)),
    ) + "  }\n"@
}

pub open spec fn fk_line(t: TableV, fk: ForeignKeyV) -> Seq<char> {
    "  "@ + mermaid_id(fk.references_table) + " ||--o{ "@ + mermaid_id(t.name) + " : \""@ + fk.column
        + "\"\n"@
}

pub open spec fn fk_lines(t: TableV) -> Seq<char> {
    flatten(t.foreign_keys.map_values(|fk: ForeignKeyV| fk_line(t, fk)))
}

/// ER diagram: tables with their first 30 columns, then one edge per
/// foreign key.
pub open spec fn er_diagram(p: ProjectV) -> Seq<char> {
    "erDiagram\n"@ + flatten(p.tables.map_values(|t: TableV| table_block(t))) + flatten(
        p.tables.map_values(|t: TableV| fk_lines(t)),
    ) + if p.tables.len() == 0 {
        "  NESSUNA_TABELLA { string nota }\n"@
    } else {
        Seq::empty()
    }
}

// class --------------------------------------------------------------------

pub open spec fn is_type(c: ComponentV) -> bool {
    c.kind == ComponentKind::Class || c.kind == ComponentKind::Interface
}

pub open spec fn member_line(m: Seq<char>) -> Seq<char> {
    "    +"@ + mermaid_id(m) + "()\n"@
}

pub open spec fn class_block(c: ComponentV) -> Seq<char> {
    "  class "@ + mermaid_id(c.name) + " {\n"@ + if c.kind == ComponentKind::Interface {
        "    <<interface>>\n"@
    } else {
        Seq::empty()
    } + flatten(first_n(c.members, 15).map_values(|m: Seq<char>| member_line(m))) + "  }\n"@
}

/// The name of the first listed type with that id.
pub open spec fn name_in(ts: Seq<(Seq<char>, Seq<char>)>, id: Seq<char>) -> Option<Seq<char>>
    decreases ts.len(),
{
    if ts.len() == 0 {
        None
    } else if ts[0].0 == id {
        Some(ts[0].1)
    } else {
        name_in(ts.drop_first(), id)
    }
}

/// The (id, name) of the listed types.
pub open spec fn listed_ids(p: ProjectV) -> Seq<(Seq<char>, Seq<char>)> {
    first_n(keep(p.components, |c: ComponentV| is_type(c)), 40).map_values(
        |c: ComponentV| (c.id, c.name),
    )
}

/// The call edge of a relation, when it is a call between two listed types.
pub open spec fn call_edge(ts: Seq<(Seq<char>, Seq<char>)>, r: RelationV) -> Seq<char> {
    if r.kind == RelationKind::Calls {
        match (name_in(ts, r.from), name_in(ts, r.to)) {
            (Some(a), Some(b)) => "  "@ + mermaid_id(a) + " --> "@ + mermaid_id(b) + " : chiama\n"@,
            _ => Seq::empty(),
        }
    } else {
        Seq::empty()
    }
}

/// Class diagram: the first 40 classes and interfaces with their first 15
/// methods, then an edge for each call between two of them.
pub open spec fn class_diagram(p: ProjectV) -> Seq<char> {
    let types = keep(p.components, |c: ComponentV| is_type(c));
    "classDiagram\n"@ + flatten(first_n(types, 40).map_values(|c: ComponentV| class_block(c)))
        + if types.len() == 0 {
        "  class NessunaClasse\n"@
    } else {
        Seq::empty()
    } + flatten(p.relations.map_values(|r: RelationV| call_edge(listed_ids(p), r)))
}

// sequence -----------------------------------------------------------------

pub open spec fn call_lines(e: EndpointV) -> Seq<char> {
    "  Client->>API: "@ + e.method + " "@ + e.path + "\n"@ + "  API-->>Client: 200 OK\n"@
}

/// Draft sequence diagram: the client calling the first 25 endpoints.
pub open spec fn sequence_diagram(p: ProjectV) -> Seq<char> {
    "sequenceDiagram\n  participant Client\n  participant API\n"@ + flatten(
        first_n(p.endpoints, 25).map_values(|e: EndpointV| call_lines(e)),
    ) + if p.endpoints.len() == 0 {
        "  Client->>API: (nessun endpoint rilevato)\n"@
    } else {
        Seq::empty()
    }
}

// flow ---------------------------------------------------------------------

pub open spec fn flow_edge(a: Seq<char>, b: Seq<char>, la: Seq<char>, lb: Seq<char>) -> Seq<char> {
    "  "@ + mermaid_id(a) + "[\""@ + la + "\"] --> "@ + mermaid_id(b) + "[\""@ + lb + "\"]\n"@
}

/// The flow edge of one relation: from an endpoint to the component that
/// exposes it, from a component to a table it references (as the DOT flow
/// draws them).
pub open spec fn flow_edges(p: ProjectV, r: RelationV) -> Seq<char> {
    match (flow_label(p, r.from), flow_label(p, r.to)) {
        (Some(lf), Some(lt)) => if r.kind == RelationKind::Exposes {
            flow_edge(r.to, r.from, lt, lf)
        } else if r.kind == RelationKind::References && has_prefix(r.to, "table:"@) {
            flow_edge(r.from, r.to, lf, lt)
        } else {
            Seq::empty()
        },
        _ => Seq::empty(),
    }
}

/// Cross-layer application flow: endpoint, component, table.
pub open spec fn flow_diagram(p: ProjectV) -> Seq<char> {
    "graph LR\n"@ + flatten(p.relations.map_values(|r: RelationV| flow_edges(p, r)))
}

/// The Mermaid text of a diagram kind, when the kind is known.
pub open spec fn mermaid_spec(p: ProjectV, kind: Seq<char>) -> Option<Seq<char>> {
    if kind == "flow"@ {
        Some(flow_diagram(p))
    } else if kind == "dependency"@ {
        Some(dependency_diagram(p))
    } else if kind == "component"@ {
        Some(component_diagram(p))
    } else if kind == "er"@ {
        Some(er_diagram(p))
    } else if kind == "class"@ {
        Some(class_diagram(p))
    } else if kind == "sequence"@ {
        Some(sequence_diagram(p))
    } else {
        None
    }
}

// ---------------------------------------------------------------------------
// Implementation
// ---------------------------------------------------------------------------

/// A safe node id (see [`mermaid_id`]).
pub fn id(s: &str) -> (r: String)
    ensures
        r@ == mermaid_id(s@),
{
    let c = clean_text(s);
    let v = to_chars(c.as_str());
    if v.len() == 0 || ('0' <= v[0] && v[0] <= '9') {
        concat2("n_", c.as_str())
    } else {
        c
    }
}

fn dependency(p: &Project) -> (r: String)
    ensures
        r@ == dependency_diagram(p@),
{
    let root = id(p.name.as_str());
    let mut s = owned("graph LR\n");
    s.append("  ");
    s.append(root.as_str());
    s.append("([\"");
    s.append(p.name.as_str());
    s.append("\"])\n");
    let ghost head = s@;
    assert(head =~= "graph LR\n"@ + ("  "@ + root@ + "([\""@ + p.name@ + "\"])\n"@));
    let n: usize = if p.dependencies.len() <= 60 { p.dependencies.len() } else { 60 };
    let ghost ds = first_n(p@.dependencies, 60);
    let ghost per = ds.map_values(|d: DependencyV| dependency_line(root@, d));
    assert(ds.len() == n);
    for i in 0..n
        invariant
            n == ds.len(),
            n <= p.dependencies.len(),
            ds == first_n(p@.dependencies, 60),
            per == ds.map_values(|d: DependencyV| dependency_line(root@, d)),
            s@ == head + flatten(per.take(i as int)),
    {
        proof {
            lemma_flatten_take(per, i as int);
        }
        let d = &p.dependencies[i];
        assert(ds[i as int] == d@);
        let ghost before = s@;
        let a = concat2(d.ecosystem.as_str(), "_");
        let b = concat2(a.as_str(), d.name.as_str());
        let nid = id(b.as_str());
        s.append("  ");
        s.append(root.as_str());
        s.append(" --> ");
        s.append(nid.as_str());
        s.append("[\"");
        s.append(d.name.as_str());
        s.append("<br/>");
        s.append(str_or_empty(&d.version).as_str());
        s.append("\"]\n");
        assert(s@ =~= before + per[i as int]);
    }
    assert(per.take(n as int) =~= per);
    s
}

fn component(p: &Project) -> (r: String)
    ensures
        r@ == component_diagram(p@),
{
    let mut s = owned("graph TD\n");
    let ghost pp = p@;
    let ghost ps = pp.services.map_values(|x: ServiceV| service_node(x));
    for i in 0..p.services.len()
        invariant
            pp == p@,
            ps == pp.services.map_values(|x: ServiceV| service_node(x)),
            s@ == "graph TD\n"@ + flatten(ps.take(i as int)),
    {
        proof {
            lemma_flatten_take(ps, i as int);
        }
        let sv = &p.services[i];
        assert(pp.services[i as int] == sv@);
        let ghost before = s@;
        s.append("  ");
        s.append(id(sv.id.as_str()).as_str());
        s.append("[\"");
        s.append(sv.name.as_str());
        s.append("<br/><small>");
        s.append(str_or_empty(&sv.image).as_str());
        s.append("</small>\"]\n");
        assert(s@ =~= before + ps[i as int]);
    }
    assert(ps.take(p.services.len() as int) =~= ps);
    let ghost head = s@;
    let ghost pr = pp.relations.map_values(|x: RelationV| depends_line(x));
    for i in 0..p.relations.len()
        invariant
            pp == p@,
            pr == pp.relations.map_values(|x: RelationV| depends_line(x)),
            s@ == head + flatten(pr.take(i as int)),
    {
        proof {
            lemma_flatten_take(pr, i as int);
        }
        let r = &p.relations[i];
        assert(pp.relations[i as int] == r@);
        let ghost before = s@;
        if r.kind == RelationKind::DependsOn {
            s.append("  ");
            s.append(id(r.from.as_str()).as_str());
            s.append(" --> ");
            s.append(id(r.to.as_str()).as_str());
            s.append("\n");
        }
        assert(s@ =~= before + pr[i as int]);
    }
    assert(pr.take(p.relations.len() as int) =~= pr);
    let ghost body = s@;
    if p.services.len() == 0 {
        s.append("  empty[\"Nessun servizio rilevato\"]\n");
    } else {
        assert(body + Seq::<char>::empty() =~= body);
    }
    s
}

fn table_text(t: &crate::model::Table) -> (r: String)
    ensures
        r@ == table_block(t@),
{
    let mut s = owned("  ");
    s.append(id(t.name.as_str()).as_str());
    s.append(" {\n");
    let ghost head = s@;
    let n: usize = if t.columns.len() <= 30 { t.columns.len() } else { 30 };
    let ghost cs = first_n(t@.columns, 30);
    let ghost per = cs.map_values(|c: ColumnV| column_line(c));
    for i in 0..n
        invariant
            n == cs.len(),
            n <= t.columns.len(),
            cs == first_n(t@.columns, 30),
            per == cs.map_values(|c: ColumnV| column_line(c)),
            s@ == head + flatten(per.take(i as int)),
    {
        proof {
            lemma_flatten_take(per, i as int);
        }
        let c = &t.columns[i];
        assert(cs[i as int] == c@);
        let ghost before = s@;
        s.append("    ");
        s.append(id(c.data_type.as_str()).as_str());
        s.append(" ");
        s.append(id(c.name.as_str()).as_str());
        if c.primary_key {
            s.append(" PK");
        }
        s.append("\n");
        assert(s@ =~= before + per[i as int]);
    }
    assert(per.take(n as int) =~= per);
    s.append("  }\n");
    s
}

fn er(p: &Project) -> (r: String)
    ensures
        r@ == er_diagram(p@),
{
    let mut s = owned("erDiagram\n");
    let ghost pp = p@;
    let ghost pb = pp.tables.map_values(|t: TableV| table_block(t));
    for i in 0..p.tables.len()
        invariant
            pp == p@,
            pb == pp.tables.map_values(|t: TableV| table_block(t)),
            s@ == "erDiagram\n"@ + flatten(pb.take(i as int)),
    {
        proof {
            lemma_flatten_take(pb, i as int);
        }
        assert(pp.tables[i as int] == p.tables@[i as int]@);
        let b = table_text(&p.tables[i]);
        s.append(b.as_str());
    }
    assert(pb.take(p.tables.len() as int) =~= pb);
    let ghost head = s@;
    let ghost pf = pp.tables.map_values(|t: TableV| fk_lines(t));
    for i in 0..p.tables.len()
        invariant
            pp == p@,
            pf == pp.tables.map_values(|t: TableV| fk_lines(t)),
            s@ == head + flatten(pf.take(i as int)),
    {
        proof {
            lemma_flatten_take(pf, i as int);
        }
        let t = &p.tables[i];
        assert(pp.tables[i as int] == t@);
        let ghost base = s@;
        let ghost inner = t@.foreign_keys.map_values(|fk: ForeignKeyV| fk_line(t@, fk));
        let tid = id(t.name.as_str());
        for j in 0..t.foreign_keys.len()
            invariant
                inner == t@.foreign_keys.map_values(|fk: ForeignKeyV| fk_line(t@, fk)),
                tid@ == mermaid_id(t@.name),
                s@ == base + flatten(inner.take(j as int)),
        {
            proof {
                lemma_flatten_take(inner, j as int);
            }
            let fk = &t.foreign_keys[j];
            assert(t@.foreign_keys[j as int] == fk@);
            let ghost before = s@;
            s.append("  ");
            s.append(id(fk.references_table.as_str()).as_str());
            s.append(" ||--o{ ");
            s.append(tid.as_str());
            s.append(" : \"");
            s.append(fk.column.as_str());
            s.append("\"\n");
            assert(s@ =~= before + inner[j as int]);
        }
        assert(inner.take(t.foreign_keys.len() as int) =~= inner);
        assert(s@ =~= base + pf[i as int]);
    }
    assert(pf.take(p.tables.len() as int) =~= pf);
    let ghost body = s@;
    if p.tables.len() == 0 {
        s.append("  NESSUNA_TABELLA { string nota }\n");
    } else {
        assert(body + Seq::<char>::empty() =~= body);
    }
    s
}

fn class_text(c: &crate::model::Component) -> (r: String)
    ensures
        r@ == class_block(c@),
{
    let mut s = owned("  class ");
    s.append(id(c.name.as_str()).as_str());
    s.append(" {\n");
    if c.kind == ComponentKind::Interface {
        s.append("    <<interface>>\n");
    }
    let ghost head = s@;
    let n: usize = if c.members.len() <= 15 { c.members.len() } else { 15 };
    let ghost ms = first_n(c@.members, 15);
    let ghost per = ms.map_values(|m: Seq<char>| member_line(m));
    for i in 0..n
        invariant
            n == ms.len(),
            n <= c.members.len(),
            ms == first_n(c@.members, 15),
            c@.members == crate::text::views(c.members@),
            per == ms.map_values(|m: Seq<char>| member_line(m)),
            s@ == head + flatten(per.take(i as int)),
    {
        proof {
            lemma_flatten_take(per, i as int);
        }
        assert(ms[i as int] == c.members@[i as int]@);
        let ghost before = s@;
        s.append("    +");
        s.append(id(c.members[i].as_str()).as_str());
        s.append("()\n");
        assert(s@ =~= before + per[i as int]);
    }
    assert(per.take(n as int) =~= per);
    s.append("  }\n");
    assert(s@ =~= class_block(c@));
    s
}

fn name_of_id(ts: &Vec<(String, String)>, key: &str) -> (r: Option<String>)
    ensures
        match r {
            Some(n) => name_in(pairs_view(ts@), key@) == Some(n@),
            None => name_in(pairs_view(ts@), key@) is None,
        },
{
    let ghost all = pairs_view(ts@);
    let mut i: usize = 0;
    assert(all.subrange(0, all.len() as int) =~= all);
    while i < ts.len()
        invariant
            all == pairs_view(ts@),
            i <= ts.len(),
            name_in(all, key@) == name_in(all.subrange(i as int, all.len() as int), key@),
        decreases ts.len() - i,
    {
        let ghost rest = all.subrange(i as int, all.len() as int);
        assert(rest.drop_first() =~= all.subrange(i + 1, all.len() as int));
        assert(rest[0] == (ts@[i as int].0@, ts@[i as int].1@));
        if str_eq(ts[i].0.as_str(), key) {
            return Some(ts[i].1.clone());
        }
        i += 1;
    }
    None
}

fn call_edges(p: &Project, listed: &Vec<(String, String)>, s: &mut String)
    ensures
        final(s)@ == old(s)@ + flatten(p@.relations.map_values(|r: RelationV| call_edge(pairs_view(listed@), r))),
{
    let ghost ts = pairs_view(listed@);
    let ghost head = s@;
    let ghost pr = p@.relations.map_values(|r: RelationV| call_edge(ts, r));
    for i in 0..p.relations.len()
        invariant
            ts == pairs_view(listed@),
            pr == p@.relations.map_values(|r: RelationV| call_edge(ts, r)),
            s@ == head + flatten(pr.take(i as int)),
    {
        proof {
            lemma_flatten_take(pr, i as int);
        }
        let r = &p.relations[i];
        assert(p@.relations[i as int] == r@);
        let ghost before = s@;
        if r.kind == RelationKind::Calls {
            match (name_of_id(listed, r.from.as_str()), name_of_id(listed, r.to.as_str())) {
                (Some(a), Some(b)) => {
                    s.append("  ");
                    s.append(id(a.as_str()).as_str());
                    s.append(" --> ");
                    s.append(id(b.as_str()).as_str());
                    s.append(" : chiama\n");
                },
                _ => {},
            }
        }
        assert(s@ =~= before + pr[i as int]);
    }
    assert(pr.take(p.relations.len() as int) =~= pr);
}

fn class(p: &Project) -> (r: String)
    ensures
        r@ == class_diagram(p@),
{
    let mut s = owned("classDiagram\n");
    let ghost pp = p@;
    let ghost pred = |c: ComponentV| is_type(c);
    let ghost types = keep(pp.components, pred);
    let mut listed: Vec<(String, String)> = Vec::new();
    let mut count: usize = 0;
    let mut i: usize = 0;
    while i < p.components.len() && count < 40
        invariant
            pp == p@,
            pred == (|c: ComponentV| is_type(c)),
            types == keep(pp.components, pred),
            i <= p.components.len(),
            count <= 40,
            count == keep(pp.components.take(i as int), pred).len(),
            s@ == "classDiagram\n"@ + flatten(
                keep(pp.components.take(i as int), pred).map_values(|c: ComponentV| class_block(c)),
            ),
            pairs_view(listed@) == keep(pp.components.take(i as int), pred).map_values(
                |c: ComponentV| (c.id, c.name),
            ),
        decreases p.components.len() - i,
    {
        proof {
            lemma_keep_take(pp.components, pred, i as int);
        }
        let c = &p.components[i];
        assert(pp.components[i as int] == c@);
        let ghost kb = keep(pp.components.take(i as int), pred);
        if c.kind == ComponentKind::Class || c.kind == ComponentKind::Interface {
            let b = class_text(c);
            s.append(b.as_str());
            count += 1;
            assert(kb.push(c@).map_values(|x: ComponentV| class_block(x)).drop_last() =~= kb.map_values(|x: ComponentV| class_block(x)));
            let ghost before = listed@;
            let cid = c.id.clone();
            let cname = c.name.clone();
            assert(cid@ == c@.id && cname@ == c@.name);
            listed.push((cid, cname));
            assert(pairs_view(listed@) =~= pairs_view(before).push((c@.id, c@.name)));
            assert(pairs_view(listed@) =~= kb.push(c@).map_values(|x: ComponentV| (x.id, x.name)));
        }
        i += 1;
    }
    proof {
        crate::text::lemma_keep_len(pp.components.take(i as int), pred);
        lemma_first_keep(pp.components, pred, i as int, 40);
    }
    assert(pairs_view(listed@) == listed_ids(pp));
    let ghost body = s@;
    if count == 0 {
        proof {
            lemma_keep_empty_prefix(pp.components, pred, i as int);
        }
        s.append("  class NessunaClasse\n");
    } else {
        proof {
            lemma_keep_nonempty_prefix(pp.components, pred, i as int);
        }
        assert(body + Seq::<char>::empty() =~= body);
    }
    call_edges(p, &listed, &mut s);
    s
}

/// Where the scan of the classes stops, the kept prefix is the first 40
/// kept elements.
proof fn lemma_first_keep(s: Seq<ComponentV>, p: spec_fn(ComponentV) -> bool, i: int, n: int)
    requires
        0 <= i <= s.len(),
        0 <= n,
        keep(s.take(i), p).len() <= n,
        i < s.len() ==> keep(s.take(i), p).len() == n,
    ensures
        keep(s.take(i), p) == first_n(keep(s, p), n),
    decreases s.len() - i,
{
    if i == s.len() {
        assert(s.take(i) =~= s);
    } else {
        lemma_keep_prefix_of(s, p, i);
    }
}

/// The kept elements of a prefix are a prefix of the kept elements.
proof fn lemma_keep_prefix_of(s: Seq<ComponentV>, p: spec_fn(ComponentV) -> bool, i: int)
    requires
        0 <= i <= s.len(),
    ensures
        keep(s.take(i), p).len() <= keep(s, p).len(),
        keep(s, p).take(keep(s.take(i), p).len() as int) == keep(s.take(i), p),
    decreases s.len() - i,
{
    if i == s.len() {
        assert(s.take(i) =~= s);
        assert(keep(s, p).take(keep(s, p).len() as int) =~= keep(s, p));
    } else {
        lemma_keep_prefix_of(s, p, i + 1);
        lemma_keep_take(s, p, i);
        let a = keep(s.take(i), p);
        let b = keep(s.take(i + 1), p);
        let k = keep(s, p);
        if p(s[i]) {
            assert(b == a.push(s[i]));
            assert(k.take(a.len() as int) =~= k.take(b.len() as int).take(a.len() as int));
            assert(b.take(a.len() as int) =~= a);
        } else {
            assert(b == a);
        }
    }
}

proof fn lemma_keep_empty_prefix(s: Seq<ComponentV>, p: spec_fn(ComponentV) -> bool, i: int)
    requires
        0 <= i <= s.len(),
        keep(s.take(i), p).len() == 0,
        i < s.len() ==> keep(s.take(i), p).len() == 40,
    ensures
        keep(s, p).len() == 0,
{
    assert(i == s.len());
    assert(s.take(i) =~= s);
}

proof fn lemma_keep_nonempty_prefix(s: Seq<ComponentV>, p: spec_fn(ComponentV) -> bool, i: int)
    requires
        0 <= i <= s.len(),
        keep(s.take(i), p).len() > 0,
    ensures
        keep(s, p).len() > 0,
{
    lemma_keep_prefix_of(s, p, i);
}

fn sequence(p: &Project) -> (r: String)
    ensures
        r@ == sequence_diagram(p@),
{
    let mut s = owned("sequenceDiagram\n  participant Client\n  participant API\n");
    let ghost head = s@;
    let n: usize = if p.endpoints.len() <= 25 { p.endpoints.len() } else { 25 };
    let ghost es = first_n(p@.endpoints, 25);
    let ghost per = es.map_values(|e: EndpointV| call_lines(e));
    for i in 0..n
        invariant
            n == es.len(),
            n <= p.endpoints.len(),
            es == first_n(p@.endpoints, 25),
            per == es.map_values(|e: EndpointV| call_lines(e)),
            s@ == head + flatten(per.take(i as int)),
    {
        proof {
            lemma_flatten_take(per, i as int);
        }
        let e = &p.endpoints[i];
        assert(es[i as int] == e@);
        let ghost before = s@;
        s.append("  Client->>API: ");
        s.append(e.method.as_str());
        s.append(" ");
        s.append(e.path.as_str());
        s.append("\n");
        s.append("  API-->>Client: 200 OK\n");
        assert(s@ =~= before + per[i as int]);
    }
    assert(per.take(n as int) =~= per);
    let ghost body = s@;
    if p.endpoints.len() == 0 {
        s.append("  Client->>API: (nessun endpoint rilevato)\n");
    } else {
        assert(body + Seq::<char>::empty() =~= body);
    }
    s
}

fn flow_edge_text(s: &mut String, a: &str, b: &str, la: &str, lb: &str)
    ensures
        final(s)@ == old(s)@ + flow_edge(a@, b@, la@, lb@),
{
    let ghost start = s@;
    s.append("  ");
    s.append(id(a).as_str());
    s.append("[\"");
    s.append(la);
    s.append("\"] --> ");
    s.append(id(b).as_str());
    s.append("[\"");
    s.append(lb);
    s.append("\"]\n");
    assert(s@ =~= start + flow_edge(a@, b@, la@, lb@));
}

fn flow(p: &Project) -> (r: String)
    ensures
        r@ == flow_diagram(p@),
{
    let mut s = owned("graph LR\n");
    let ghost pp = p@;
    let ghost head = s@;
    let ghost pr = pp.relations.map_values(|x: RelationV| flow_edges(pp, x));
    for i in 0..p.relations.len()
        invariant
            pp == p@,
            pr == pp.relations.map_values(|x: RelationV| flow_edges(pp, x)),
            s@ == head + flatten(pr.take(i as int)),
    {
        proof {
            lemma_flatten_take(pr, i as int);
        }
        let r = &p.relations[i];
        assert(pp.relations[i as int] == r@);
        let ghost before = s@;
        match (label_of(p, r.from.as_str()), label_of(p, r.to.as_str())) {
            (Some(lf), Some(lt)) => {
                if r.kind == RelationKind::Exposes {
                    flow_edge_text(&mut s, r.to.as_str(), r.from.as_str(), lt.as_str(), lf.as_str());
                } else if r.kind == RelationKind::References && starts_with(r.to.as_str(), "table:") {
                    flow_edge_text(&mut s, r.from.as_str(), r.to.as_str(), lf.as_str(), lt.as_str());
                }
            },
            _ => {},
        }
        assert(s@ =~= before + pr[i as int]);
    }
    assert(pr.take(p.relations.len() as int) =~= pr);
    s
}

/// Generates the Mermaid source of a diagram kind (see [`mermaid_spec`]).
pub fn render(p: &Project, kind: &str) -> (r: Result<String, Error>)
    ensures
        match r {
            Ok(s) => mermaid_spec(p@, kind@) == Some(s@),
            Err(e) => mermaid_spec(p@, kind@) is None && (e matches Error::UnknownDiagram(m) && m@ == kind@),
        },
{
    if str_eq(kind, "flow") {
        Ok(flow(p))
    } else if str_eq(kind, "dependency") {
        Ok(dependency(p))
    } else if str_eq(kind, "component") {
        Ok(component(p))
    } else if str_eq(kind, "er") {
        Ok(er(p))
    } else if str_eq(kind, "class") {
        Ok(class(p))
    } else if str_eq(kind, "sequence") {
        Ok(sequence(p))
    } else {
        Err(Error::UnknownDiagram(owned(kind)))
    }
}

} // verus!
