//! PlantUML diagrams: class diagram, components and sequence diagram.

use vstd::prelude::*;
use super::{clean, clean_text, component_name, first_n, last_component_name};
use crate::Error;
use crate::model::{ComponentKind, ComponentV, EndpointV, Project, ProjectV, RelationKind, RelationV, ServiceV};
use crate::text::{concat2, flatten, has_prefix, keep, lemma_flatten_take, lemma_keep_take, owned, starts_with, str_eq, string_of_range, to_chars};

verus! {

broadcast use vstd::seq_lib::group_seq_properties;

pub open spec fn is_type(c: ComponentV) -> bool {
    c.kind == ComponentKind::Class || c.kind == ComponentKind::Interface
}

pub open spec fn puml_member(m: Seq<char>) -> Seq<char> {
    "  +"@ + clean(m) + "()\n"@
}

pub open spec fn puml_class_block(c: ComponentV) -> Seq<char> {
    (if c.kind == ComponentKind::Interface {
        "interface"@
    } else {
        "class"@
    }) + " "@ + clean(c.name) + " {\n"@ + flatten(
        first_n(c.members, 15).map_values(|m: Seq<char>| puml_member(m)),
    ) + "}\n"@
}

/// A call edge between two known components (names by their last
/// component with that id).
pub open spec fn calls_line(cs: Seq<ComponentV>, r: RelationV) -> Seq<char> {
    if r.kind == RelationKind::Calls {
        match (last_component_name(cs, r.from), last_component_name(cs, r.to)) {
            (Some(f), Some(t)) => clean(f) + " ..> "@ + clean(t) + "\n"@,
            _ => Seq::empty(),
        }
    } else {
        Seq::empty()
    }
}

/// Class diagram: the first 50 classes and interfaces (first 15 methods
/// each), then the call edges.
pub open spec fn puml_class_diagram(p: ProjectV) -> Seq<char> {
    let types = keep(p.components, |c: ComponentV| is_type(c));
    "@startuml\n"@ + flatten(first_n(types, 50).map_values(|c: ComponentV| puml_class_block(c)))
        + flatten(p.relations.map_values(|r: RelationV| calls_line(p.components, r))) + "@enduml\n"@
}

/// The name of the first service with id `key`.
pub open spec fn first_service_name(ss: Seq<ServiceV>, key: Seq<char>) -> Option<Seq<char>>
    decreases ss.len(),
{
    if ss.len() == 0 {
        None
    } else if ss[0].id == key {
        Some(ss[0].name)
    } else {
        first_service_name(ss.drop_first(), key)
    }
}

/// `s` without the prefix `service:` when it has it.
pub open spec fn strip_service(s: Seq<char>) -> Seq<char> {
    if has_prefix(s, "service:"@) {
        s.subrange(8, s.len() as int)
    } else {
        s
    }
}

pub open spec fn depends_edge(ss: Seq<ServiceV>, r: RelationV) -> Seq<char> {
    if r.kind == RelationKind::DependsOn {
        match first_service_name(ss, r.from) {
            Some(from) => "["@ + from + "] --> ["@ + strip_service(r.to) + "]\n"@,
            None => Seq::empty(),
        }
    } else {
        Seq::empty()
    }
}

/// Component diagram: the services and their depends-on edges.
pub open spec fn puml_component_diagram(p: ProjectV) -> Seq<char> {
    "@startuml\n"@ + flatten(p.services.map_values(|s: ServiceV| "component ["@ + s.name + "]\n"@))
        + flatten(p.relations.map_values(|r: RelationV| depends_edge(p.services, r))) + "@enduml\n"@
}

pub open spec fn puml_call(e: EndpointV) -> Seq<char> {
    "Client -> API: "@ + e.method + " "@ + e.path + "\n"@ + "API --> Client: 200 OK\n"@
}

/// Sequence diagram: the client calling the first 25 endpoints.
pub open spec fn puml_sequence_diagram(p: ProjectV) -> Seq<char> {
    "@startuml\nactor Client\nparticipant API\n"@ + flatten(
        first_n(p.endpoints, 25).map_values(|e: EndpointV| puml_call(e)),
    ) + "@enduml\n"@
}

/// The PlantUML text of a diagram kind, when the kind is known.
pub open spec fn plantuml_spec(p: ProjectV, kind: Seq<char>) -> Option<Seq<char>> {
    if kind == "class"@ {
        Some(puml_class_diagram(p))
    } else if kind == "component"@ {
        Some(puml_component_diagram(p))
    } else if kind == "sequence"@ {
        Some(puml_sequence_diagram(p))
    } else {
        None
    }
}

// ---------------------------------------------------------------------------
// Implementation
// ---------------------------------------------------------------------------

/// A safe PlantUML name: every character that is not alphanumeric becomes
/// `_`.
pub fn id(s: &str) -> (r: String)
    ensures
        r@ == clean(s@),
{
    clean_text(s)
}

fn class_text(c: &crate::model::Component) -> (r: String)
    ensures
        r@ == puml_class_block(c@),
{
    let mut s = if c.kind == ComponentKind::Interface {
        owned("interface")
    } else {
        owned("class")
    };
    s.append(" ");
    s.append(id(c.name.as_str()).as_str());
    s.append(" {\n");
    let ghost head = s@;
    let n: usize = if c.members.len() <= 15 { c.members.len() } else { 15 };
    let ghost ms = first_n(c@.members, 15);
    let ghost per = ms.map_values(|m: Seq<char>| puml_member(m));
    for i in 0..n
        invariant
            n == ms.len(),
            n <= c.members.len(),
            ms == first_n(c@.members, 15),
            c@.members == crate::text::views(c.members@),
            per == ms.map_values(|m: Seq<char>| puml_member(m)),
            s@ == head + flatten(per.take(i as int)),
    {
        proof {
            lemma_flatten_take(per, i as int);
        }
        assert(ms[i as int] == c.members@[i as int]@);
        let ghost before = s@;
        s.append("  +");
        s.append(id(c.members[i].as_str()).as_str());
        s.append("()\n");
        assert(s@ =~= before + per[i as int]);
    }
    assert(per.take(n as int) =~= per);
    s.append("}\n");
    assert(s@ =~= puml_class_block(c@));
    s
}

/// Where the scan stops, the kept prefix is the first `n` kept elements.
proof fn lemma_first_keep(s: Seq<ComponentV>, p: spec_fn(ComponentV) -> bool, i: int, n: int)
    requires
        0 <= i <= s.len(),
        0 <= n,
        keep(s.take(i), p).len() <= n,
        i < s.len() ==> keep(s.take(i), p).len() == n,
    ensures
        keep(s.take(i), p) == first_n(keep(s, p), n),
{
    if i == s.len() {
        assert(s.take(i) =~= s);
    } else {
        lemma_keep_prefix_of(s, p, i);
    }
}

proof fn lemma_keep_prefix_of(s: Seq<ComponentV>, p: spec_fn(ComponentV) -> bool, i: int)
    requires
        0 <= i <= s.len(),
    ensures
        keep(s.take(i), p).len() <= keep(s, p).len(),
        keep(s, p).take(keep(s.take(i), p).len() as int) == keep(s.take(i), p),
    decreases s.len() - i,
{
    if i == s.len() {
        assert(s.take(i) =~= s);
        assert(keep(s, p).take(keep(s, p).len() as int) =~= keep(s, p));
    } else {
        lemma_keep_prefix_of(s, p, i + 1);
        lemma_keep_take(s, p, i);
        let a = keep(s.take(i), p);
        let b = keep(s.take(i + 1), p);
        let k = keep(s, p);
        if p(s[i]) {
            assert(b == a.push(s[i]));
            assert(k.take(a.len() as int) =~= k.take(b.len() as int).take(a.len() as int));
            assert(b.take(a.len() as int) =~= a);
        } else {
            assert(b == a);
        }
    }
}

fn class(p: &Project) -> (r: String)
    ensures
        r@ == puml_class_diagram(p@),
{
    let mut s = owned("@startuml\n");
    let ghost pp = p@;
    let ghost pred = |c: ComponentV| is_type(c);
    let mut count: usize = 0;
    let mut i: usize = 0;
    while i < p.components.len() && count < 50
        invariant
            pp == p@,
            pred == (|c: ComponentV| is_type(c)),
            i <= p.components.len(),
            count <= 50,
            count == keep(pp.components.take(i as int), pred).len(),
            s@ == "@startuml\n"@ + flatten(
                keep(pp.components.take(i as int), pred).map_values(|c: ComponentV| puml_class_block(c)),
            ),
        decreases p.components.len() - i,
    {
        proof {
            lemma_keep_take(pp.components, pred, i as int);
        }
        let c = &p.components[i];
        assert(pp.components[i as int] == c@);
        let ghost kb = keep(pp.components.take(i as int), pred);
        if c.kind == ComponentKind::Class || c.kind == ComponentKind::Interface {
            let b = class_text(c);
            s.append(b.as_str());
            count += 1;
            assert(kb.push(c@).map_values(|x: ComponentV| puml_class_block(x)).drop_last() =~= kb.map_values(|x: ComponentV| puml_class_block(x)));
        }
        i += 1;
    }
    proof {
        lemma_first_keep(pp.components, pred, i as int, 50);
    }
    let ghost head = s@;
    let ghost pr = pp.relations.map_values(|r: RelationV| calls_line(pp.components, r));
    for k in 0..p.relations.len()
        invariant
            pp == p@,
            pr == pp.relations.map_values(|r: RelationV| calls_line(pp.components, r)),
            s@ == head + flatten(pr.take(k as int)),
    {
        proof {
            lemma_flatten_take(pr, k as int);
        }
        let r = &p.relations[k];
        assert(pp.relations[k as int] == r@);
        let ghost before = s@;
        if r.kind == RelationKind::Calls {
            match (component_name(p, r.from.as_str()), component_name(p, r.to.as_str())) {
                (Some(f), Some(t)) => {
                    s.append(id(f.as_str()).as_str());
                    s.append(" ..> ");
                    s.append(id(t.as_str()).as_str());
                    s.append("\n");
                },
                _ => {},
            }
        }
        assert(s@ =~= before + pr[k as int]);
    }
    assert(pr.take(p.relations.len() as int) =~= pr);
    s.append("@enduml\n");
    s
}

fn service_name(p: &Project, key: &str) -> (r: Option<String>)
    ensures
        match r {
            Some(s) => first_service_name(p@.services, key@) == Some(s@),
            None => first_service_name(p@.services, key@) is None,
        },
{
    let ghost ss = p@.services;
    let mut i: usize = 0;
    assert(ss.subrange(0, ss.len() as int) =~= ss);
    while i < p.services.len()
        invariant
            ss == p@.services,
            i <= ss.len(),
            first_service_name(ss, key@) == first_service_name(ss.subrange(i as int, ss.len() as int), key@),
        decreases ss.len() - i,
    {
        assert(ss.subrange(i as int, ss.len() as int).drop_first() =~= ss.subrange(i + 1, ss.len() as int));
        assert(ss.subrange(i as int, ss.len() as int)[0] == p.services@[i as int]@);
        if str_eq(p.services[i].id.as_str(), key) {
            return Some(p.services[i].name.clone());
        }
        i += 1;
    }
    None
}

fn strip_service_prefix(s: &str) -> (r: String)
    ensures
        r@ == strip_service(s@),
{
    if starts_with(s, "service:") {
        proof {
            reveal_strlit("service:");
        }
        let v = to_chars(s);
        string_of_range(&v, 8, v.len())
    } else {
        owned(s)
    }
}

fn component(p: &Project) -> (r: String)
    ensures
        r@ == puml_component_diagram(p@),
{
    let mut s = owned("@startuml\n");
    let ghost pp = p@;
    let ghost ps = pp.services.map_values(|x: ServiceV| "component ["@ + x.name + "]\n"@);
    for i in 0..p.services.len()
        invariant
            pp == p@,
            ps == pp.services.map_values(|x: ServiceV| "component ["@ + x.name + "]\n"@),
            s@ == "@startuml\n"@ + flatten(ps.take(i as int)),
    {
        proof {
            lemma_flatten_take(ps, i as int);
        }
        assert(pp.services[i as int] == p.services@[i as int]@);
        let ghost before = s@;
        s.append("component [");
        s.append(p.services[i].name.as_str());
        s.append("]\n");
        assert(s@ =~= before + ps[i as int]);
    }
    assert(ps.take(p.services.len() as int) =~= ps);
    let ghost head = s@;
    let ghost pr = pp.relations.map_values(|r: RelationV| depends_edge(pp.services, r));
    for k in 0..p.relations.len()
        invariant
            pp == p@,
            pr == pp.relations.map_values(|r: RelationV| depends_edge(pp.services, r)),
            s@ == head + flatten(pr.take(k as int)),
    {
        proof {
            lemma_flatten_take(pr, k as int);
        }
        let r = &p.relations[k];
        assert(pp.relations[k as int] == r@);
        let ghost before = s@;
        if r.kind == RelationKind::DependsOn {
            match service_name(p, r.from.as_str()) {
                Some(from) => {
                    s.append("[");
                    s.append(from.as_str());
                    s.append("] --> [");
                    s.append(strip_service_prefix(r.to.as_str()).as_str());
                    s.append("]\n");
                },
                None => {},
            }
        }
        assert(s@ =~= before + pr[k as int]);
    }
    assert(pr.take(p.relations.len() as int) =~= pr);
    s.append("@enduml\n");
    s
}

fn sequence(p: &Project) -> (r: String)
    ensures
        r@ == puml_sequence_diagram(p@),
{
    let mut s = owned("@startuml\nactor Client\nparticipant API\n");
    let ghost head = s@;
    let n: usize = if p.endpoints.len() <= 25 { p.endpoints.len() } else { 25 };
    let ghost es = first_n(p@.endpoints, 25);
    let ghost per = es.map_values(|e: EndpointV| puml_call(e));
    for i in 0..n
        invariant
            n == es.len(),
            n <= p.endpoints.len(),
            es == first_n(p@.endpoints, 25),
            per == es.map_values(|e: EndpointV| puml_call(e)),
            s@ == head + flatten(per.take(i as int)),
    {
        proof {
            lemma_flatten_take(per, i as int);
        }
        let e = &p.endpoints[i];
        assert(es[i as int] == e@);
        let ghost before = s@;
        s.append("Client -> API: ");
        s.append(e.method.as_str());
        s.append(" ");
        s.append(e.path.as_str());
        s.append("\n");
        s.append("API --> Client: 200 OK\n");
        assert(s@ =~= before + per[i as int]);
    }
    assert(per.take(n as int) =~= per);
    s.append("@enduml\n");
    s
}

/// Generates the PlantUML source of a diagram kind (see [`plantuml_spec`]).
pub fn render(p: &Project, kind: &str) -> (r: Result<String, Error>)
    ensures
        match r {
            Ok(s) => plantuml_spec(p@, kind@) == Some(s@),
            Err(e) => plantuml_spec(p@, kind@) is None && (e matches Error::UnknownDiagram(m) && m@ == "plantuml: "@ + kind@),
        },
{
    if str_eq(kind, "class") {
        Ok(class(p))
    } else if str_eq(kind, "component") {
        Ok(component(p))
    } else if str_eq(kind, "sequence") {
        Ok(sequence(p))
    } else {
        Err(Error::UnknownDiagram(concat2("plantuml: ", kind)))
    }
}

} // verus!
