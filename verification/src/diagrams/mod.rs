//! Diagrams generated from the project model: Mermaid ([`mermaid`]),
//! PlantUML ([`plantuml`]) and Graphviz DOT ([`dot`]) text.

pub mod dot;
pub mod mermaid;
pub mod plantuml;

use vstd::prelude::*;
use crate::Error;
use crate::model::Project;
use crate::text::{alphanumeric_of, char_is_alphanumeric, concat2, push_char, str_eq, to_chars};

verus! {

/// The first `n` elements (all of them when there are fewer).
pub open spec fn first_n<A>(s: Seq<A>, n: int) -> Seq<A> {
    if s.len() <= n {
        s
    } else {
        s.take(n)
    }
}

/// Every character that is not alphanumeric replaced by `_`.
pub open spec fn clean(s: Seq<char>) -> Seq<char> {
    s.map_values(|c: char| if alphanumeric_of(c) { c } else { '_' })
}

/// Replaces every non-alphanumeric character by `_` (see [`clean`]).
pub fn clean_text(s: &str) -> (r: String)
    ensures
        r@ == clean(s@),
{
    let v = to_chars(s);
    let mut r = String::new();
    for i in 0..v.len()
        invariant
            v@ == s@,
            r@ == clean(v@.take(i as int)),
    {
        let c = v[i];
        let d = if char_is_alphanumeric(c) { c } else { '_' };
        push_char(&mut r, d);
        assert(clean(v@.take(i + 1)) =~= clean(v@.take(i as int)).push(d));
    }
    assert(v@.take(v.len() as int) =~= v@);
    r
}

/// The text of a diagram in `format`, when the format and the kind are
/// known.
pub open spec fn diagram_spec(p: crate::model::ProjectV, kind: Seq<char>, format: Seq<char>) -> Option<Seq<char>> {
    if format == "mermaid"@ {
        mermaid::mermaid_spec(p, kind)
    } else if format == "plantuml"@ {
        plantuml::plantuml_spec(p, kind)
    } else if format == "dot"@ {
        dot::dot_spec(p, kind)
    } else {
        None
    }
}

/// The error message of an unknown diagram request.
pub open spec fn unknown_message(kind: Seq<char>, format: Seq<char>) -> Seq<char> {
    if format == "mermaid"@ {
        kind
    } else if format == "plantuml"@ {
        "plantuml: "@ + kind
    } else if format == "dot"@ {
        "dot: "@ + kind
    } else {
        "formato "@ + format
    }
}

/// Generates a diagram in the requested format (`mermaid`, `plantuml` or
/// `dot`).
pub fn render(project: &Project, kind: &str, format: &str) -> (r: Result<String, Error>)
    ensures
        match r {
            Ok(s) => diagram_spec(project@, kind@, format@) == Some(s@),
            Err(e) => diagram_spec(project@, kind@, format@) is None && (e matches Error::UnknownDiagram(m)
                && m@ == unknown_message(kind@, format@)),
        },
{
    if str_eq(format, "mermaid") {
        mermaid::render(project, kind)
    } else if str_eq(format, "plantuml") {
        plantuml::render(project, kind)
    } else if str_eq(format, "dot") {
        dot::render(project, kind)
    } else {
        Err(Error::UnknownDiagram(concat2("formato ", format)))
    }
}

/// File extension for a diagram format.
pub open spec fn extension_of_format(format: Seq<char>) -> Seq<char> {
    if format == "plantuml"@ {
        "puml"@
    } else if format == "dot"@ {
        "dot"@
    } else {
        "mmd"@
    }
}

pub fn extension(format: &str) -> (r: &'static str)
    ensures
        r@ == extension_of_format(format@),
{
    if str_eq(format, "plantuml") {
        "puml"
    } else if str_eq(format, "dot") {
        "dot"
    } else {
        "mmd"
    }
}

/// The name of the last component with id `key`, as a map built from the
/// components in order keeps it.
pub open spec fn last_component_name(cs: Seq<crate::model::ComponentV>, key: Seq<char>) -> Option<Seq<char>>
    decreases cs.len(),
{
    if cs.len() == 0 {
        None
    } else if cs.last().id == key {
        Some(cs.last().name)
    } else {
        last_component_name(cs.drop_last(), key)
    }
}

pub fn component_name(p: &Project, key: &str) -> (r: Option<String>)
    ensures
        match r {
            Some(s) => last_component_name(p@.components, key@) == Some(s@),
            None => last_component_name(p@.components, key@) is None,
        },
{
    let ghost cs = p@.components;
    let mut j = p.components.len();
    assert(cs.take(cs.len() as int) =~= cs);
    while j > 0
        invariant
            cs == p@.components,
            j <= cs.len(),
            last_component_name(cs, key@) == last_component_name(cs.take(j as int), key@),
        decreases j,
    {
        assert(cs.take(j as int).drop_last() =~= cs.take(j - 1));
        assert(cs.take(j as int).last() == p.components@[j - 1]@);
        if str_eq(p.components[j - 1].id.as_str(), key) {
            return Some(p.components[j - 1].name.clone());
        }
        j -= 1;
    }
    None
}

} // verus!
