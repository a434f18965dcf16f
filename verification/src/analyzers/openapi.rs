//! OpenAPI/Swagger analysis: the endpoints (method, path, operationId) of
//! specifications written in YAML or JSON.
//!
//! A document counts as a specification when it has a top-level `openapi` or
//! `swagger` key and a `paths` object, so that an arbitrary YAML file is not
//! taken for an API.

use vstd::prelude::*;
use super::{SourceFile, ext, ext_of, rel, rel_of};
use crate::model::{Endpoint, EndpointV, Project, ProjectV, endpoints_view};
use crate::node::{Node, get, get_str, node_get, node_str};
use crate::text::{
    concat2, flatten, lemma_flatten_take, lemma_map_push, lowercase_of, str_eq, to_lower, to_upper,
    uppercase_of,
};

verus! {

broadcast use vstd::seq_lib::group_seq_properties;

/// The HTTP methods that an operation key may name (compared in lower case).
pub open spec fn is_http_method(m: Seq<char>) -> bool {
    m == "get"@ || m == "post"@ || m == "put"@ || m == "delete"@ || m == "patch"@ || m == "head"@
        || m == "options"@
}

/// The endpoint of one operation of a path item.
pub open spec fn operation_endpoint(route: Seq<char>, op: (Node, Node), source: Seq<char>) -> Seq<EndpointV> {
    match op.0 {
        Node::Text(method) => if is_http_method(lowercase_of(method@)) {
            let upper = uppercase_of(method@);
            seq![
                EndpointV {
                    id: "ep:"@ + upper + " "@ + route,
                    method: upper,
                    path: route,
                    operation_id: node_str(node_get(op.1, "operationId"@)),
                    summary: node_str(node_get(op.1, "summary"@)),
                    source: source,
                },
            ]
        } else {
            Seq::empty()
        },
        _ => Seq::empty(),
    }
}

/// The endpoints of one entry of `paths`: every operation of the path item,
/// when it is an object.
pub open spec fn path_endpoints(entry: (Node, Node), source: Seq<char>) -> Seq<EndpointV> {
    match (entry.0, entry.1) {
        (Node::Text(route), Node::Mapping(ops)) => flatten(
            ops@.map_values(|op: (Node, Node)| operation_endpoint(route@, op, source)),
        ),
        _ => Seq::empty(),
    }
}

/// The endpoints of a parsed document, if it is a specification.
pub open spec fn document_endpoints(doc: Node, source: Seq<char>) -> Seq<EndpointV> {
    let is_spec = node_get(doc, "openapi"@) is Some || node_get(doc, "swagger"@) is Some;
    match node_get(doc, "paths"@) {
        Some(Node::Mapping(paths)) => if is_spec {
            flatten(paths@.map_values(|e: (Node, Node)| path_endpoints(e, source)))
        } else {
            Seq::empty()
        },
        _ => Seq::empty(),
    }
}

/// The endpoints of one readable `.yaml`, `.yml` or `.json` file.
pub open spec fn file_endpoints(root: Seq<char>, f: SourceFile) -> Seq<EndpointV> {
    let e = ext_of(f.path@);
    if !(e == "yaml"@ || e == "yml"@ || e == "json"@) {
        Seq::empty()
    } else {
        match (f.text, f.json) {
            (Some(_), Some(doc)) => document_endpoints(doc, rel_of(root, f.path@)),
            _ => Seq::empty(),
        }
    }
}

pub open spec fn with_endpoints(p: ProjectV, es: Seq<EndpointV>) -> ProjectV {
    ProjectV { endpoints: p.endpoints + es, ..p }
}

// ---------------------------------------------------------------------------
// Implementation
// ---------------------------------------------------------------------------

fn http_method(m: &str) -> (b: bool)
    ensures
        b == is_http_method(m@),
{
    str_eq(m, "get") || str_eq(m, "post") || str_eq(m, "put") || str_eq(m, "delete") || str_eq(
        m,
        "patch",
    ) || str_eq(m, "head") || str_eq(m, "options")
}

fn operation_of(route: &String, op: &(Node, Node), source: &String) -> (r: Vec<Endpoint>)
    ensures
        endpoints_view(r@) == operation_endpoint(route@, *op, source@),
{
    let mut r: Vec<Endpoint> = Vec::new();
    match &op.0 {
        Node::Text(method) => {
            let lower = to_lower(method.as_str());
            if http_method(lower.as_str()) {
                let upper = to_upper(method.as_str());
                let a = concat2("ep:", upper.as_str());
                let b = concat2(a.as_str(), " ");
                let id = concat2(b.as_str(), route.as_str());
                r.push(
                    Endpoint {
                        id,
                        method: upper,
                        path: route.clone(),
                        operation_id: get_str(&op.1, "operationId"),
                        summary: get_str(&op.1, "summary"),
                        source: source.clone(),
                    },
                );
            }
        },
        _ => {},
    }
    assert(endpoints_view(r@) =~= operation_endpoint(route@, *op, source@));
    r
}

fn path_item_endpoints(entry: &(Node, Node), source: &String) -> (r: Vec<Endpoint>)
    ensures
        endpoints_view(r@) == path_endpoints(*entry, source@),
{
    let mut r: Vec<Endpoint> = Vec::new();
    match (&entry.0, &entry.1) {
        (Node::Text(route), Node::Mapping(ops)) => {
            let ghost per = ops@.map_values(|op: (Node, Node)| operation_endpoint(route@, op, source@));
            for i in 0..ops.len()
                invariant
                    per == ops@.map_values(
                        |op: (Node, Node)| operation_endpoint(route@, op, source@),
                    ),
                    endpoints_view(r@) == flatten(per.take(i as int)),
            {
                proof {
                    lemma_flatten_take(per, i as int);
                }
                let ghost before = r@;
                let mut more = operation_of(route, &ops[i], source);
                r.append(&mut more);
                assert(endpoints_view(r@) =~= endpoints_view(before) + per[i as int]);
            }
            assert(per.take(ops.len() as int) =~= per);
        },
        _ => {
            assert(endpoints_view(r@) =~= Seq::<EndpointV>::empty());
        },
    }
    r
}

/// The endpoints of a parsed document (see [`document_endpoints`]).
pub fn endpoints_of_document(doc: &Node, source: &String) -> (r: Vec<Endpoint>)
    ensures
        endpoints_view(r@) == document_endpoints(*doc, source@),
{
    let mut r: Vec<Endpoint> = Vec::new();
    let is_spec = get(doc, "openapi").is_some() || get(doc, "swagger").is_some();
    match get(doc, "paths") {
        Some(Node::Mapping(paths)) => {
            if is_spec {
                let ghost per = paths@.map_values(|e: (Node, Node)| path_endpoints(e, source@));
                for i in 0..paths.len()
                    invariant
                        per == paths@.map_values(|e: (Node, Node)| path_endpoints(e, source@)),
                        endpoints_view(r@) == flatten(per.take(i as int)),
                {
                    proof {
                        lemma_flatten_take(per, i as int);
                    }
                    let ghost before = r@;
                    let mut more = path_item_endpoints(&paths[i], source);
                    r.append(&mut more);
                    assert(endpoints_view(r@) =~= endpoints_view(before) + per[i as int]);
                }
                assert(per.take(paths.len() as int) =~= per);
            } else {
                assert(endpoints_view(r@) =~= Seq::<EndpointV>::empty());
            }
        },
        _ => {
            assert(endpoints_view(r@) =~= Seq::<EndpointV>::empty());
        },
    }
    r
}

/// The endpoints of one file (see [`file_endpoints`]).
pub fn endpoints_of_file(root: &str, f: &SourceFile) -> (r: Vec<Endpoint>)
    ensures
        endpoints_view(r@) == file_endpoints(root@, *f),
{
    let e = ext(f.path.as_str());
    if !(str_eq(e.as_str(), "yaml") || str_eq(e.as_str(), "yml") || str_eq(e.as_str(), "json")) {
        let r: Vec<Endpoint> = Vec::new();
        assert(endpoints_view(r@) =~= Seq::<EndpointV>::empty());
        return r;
    }
    match (&f.text, &f.json) {
        (Some(_), Some(doc)) => {
            let source = rel(root, f.path.as_str());
            endpoints_of_document(doc, &source)
        },
        _ => {
            let r: Vec<Endpoint> = Vec::new();
            assert(endpoints_view(r@) =~= Seq::<EndpointV>::empty());
            r
        },
    }
}

/// Extracts the endpoints of every OpenAPI/Swagger specification, in file
/// order.
pub fn collect(project: &mut Project, root: &str, files: &Vec<SourceFile>)
    ensures
        final(project)@ == with_endpoints(
            old(project)@,
            flatten(files@.map_values(|f: SourceFile| file_endpoints(root@, f))),
        ),
{
    let ghost per = files@.map_values(|f: SourceFile| file_endpoints(root@, f));
    let ghost start = project@;
    for i in 0..files.len()
        invariant
            per == files@.map_values(|f: SourceFile| file_endpoints(root@, f)),
            project@ == with_endpoints(start, flatten(per.take(i as int))),
    {
        proof {
            lemma_flatten_take(per, i as int);
        }
        let ghost before = project.endpoints@;
        let mut more = endpoints_of_file(root, &files[i]);
        project.endpoints.append(&mut more);
        assert(endpoints_view(project.endpoints@) =~= endpoints_view(before) + per[i as int]);
        assert(project@.endpoints =~= start.endpoints + flatten(per.take(i + 1)));
        assert(project@ == with_endpoints(start, flatten(per.take(i + 1))));
    }
    assert(per.take(files.len() as int) =~= per);
}

} // verus!
