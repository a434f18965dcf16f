//! Docker Compose analysis: the services (image, ports, `depends_on`) of
//! `docker-compose*.yml` / `compose*.yml` files.

use vstd::prelude::*;
use super::{SourceFile, file_name_lc, file_name_lc_of, rel, rel_of};
use crate::model::{ProjectV, ServiceUnit, ServiceV, Project, services_view};
use crate::node::{Node, get, get_str, node_get, node_str};
use crate::text::{
    concat2, ends_with, flatten, has_prefix, has_suffix, lemma_flatten_take, lemma_map_push,
    starts_with, views,
};

verus! {

broadcast use vstd::seq_lib::group_seq_properties;

/// Whether a (lower-case) file name is a Compose file.
pub open spec fn is_compose_name(name: Seq<char>) -> bool {
    (has_prefix(name, "docker-compose"@) || has_prefix(name, "compose"@)) && (has_suffix(
        name,
        ".yml"@,
    ) || has_suffix(name, ".yaml"@))
}

/// A list item as a string: strings as they are, numbers as printed;
/// anything else is left out.
pub open spec fn item_string(n: Node) -> Seq<Seq<char>> {
    match n {
        Node::Text(s) => seq![s@],
        Node::Number(s) => seq![s@],
        _ => Seq::empty(),
    }
}

/// A YAML sequence as strings (numbers included); nothing for anything else.
pub open spec fn seq_of_strings_spec(v: Option<Node>) -> Seq<Seq<char>> {
    match v {
        Some(Node::List(items)) => flatten(items@.map_values(|n: Node| item_string(n))),
        _ => Seq::empty(),
    }
}

/// A mapping key, when it is a string.
pub open spec fn key_string(e: (Node, Node)) -> Seq<Seq<char>> {
    match e.0 {
        Node::Text(s) => seq![s@],
        _ => Seq::empty(),
    }
}

/// `depends_on` is either a list or a mapping (the long form), whose string
/// keys are the services.
pub open spec fn depends_on_spec(v: Option<Node>) -> Seq<Seq<char>> {
    match v {
        Some(Node::List(_)) => seq_of_strings_spec(v),
        Some(Node::Mapping(entries)) => flatten(entries@.map_values(|e: (Node, Node)| key_string(e))),
        _ => Seq::empty(),
    }
}

/// The service of one entry of `services`, when its key is a string.
pub open spec fn compose_service(e: (Node, Node), source: Seq<char>) -> Seq<ServiceV> {
    match e.0 {
        Node::Text(name) => seq![
            ServiceV {
                id: "service:"@ + name@,
                name: name@,
                image: node_str(node_get(e.1, "image"@)),
                ports: seq_of_strings_spec(node_get(e.1, "ports"@)),
                depends_on: depends_on_spec(node_get(e.1, "depends_on"@)),
                source: "docker-compose:"@ + source,
            },
        ],
        _ => Seq::empty(),
    }
}

/// The services of one readable Compose file.
pub open spec fn file_services(root: Seq<char>, f: SourceFile) -> Seq<ServiceV> {
    if !is_compose_name(file_name_lc_of(f.path@)) {
        Seq::empty()
    } else {
        match (f.text, f.yaml) {
            (Some(_), Some(doc)) => match node_get(doc, "services"@) {
                Some(Node::Mapping(services)) => flatten(
                    services@.map_values(
                        |e: (Node, Node)| compose_service(e, rel_of(root, f.path@)),
                    ),
                ),
                _ => Seq::empty(),
            },
            _ => Seq::empty(),
        }
    }
}

pub open spec fn with_services(p: ProjectV, ss: Seq<ServiceV>) -> ProjectV {
    ProjectV { services: p.services + ss, ..p }
}

// ---------------------------------------------------------------------------
// Implementation
// ---------------------------------------------------------------------------

/// Converts a YAML sequence into strings (see [`seq_of_strings_spec`]).
pub fn seq_of_strings(v: Option<&Node>) -> (r: Vec<String>)
    ensures
        views(r@) == seq_of_strings_spec(match v {
            Some(n) => Some(*n),
            None => None,
        }),
{
    let mut r: Vec<String> = Vec::new();
    match v {
        Some(Node::List(items)) => {
            let ghost per = items@.map_values(|n: Node| item_string(n));
            for i in 0..items.len()
                invariant
                    per == items@.map_values(|n: Node| item_string(n)),
                    views(r@) == flatten(per.take(i as int)),
            {
                proof {
                    lemma_flatten_take(per, i as int);
                }
                let ghost before = r@;
                match &items[i] {
                    Node::Text(s) => {
                        r.push(s.clone());
                        proof {
                            lemma_map_push(before, |x: String| x@, r@.last());
                        }
                    },
                    Node::Number(s) => {
                        r.push(s.clone());
                        proof {
                            lemma_map_push(before, |x: String| x@, r@.last());
                        }
                    },
                    _ => {},
                }
                assert(views(r@) =~= views(before) + per[i as int]);
            }
            assert(per.take(items.len() as int) =~= per);
        },
        _ => {
            assert(views(r@) =~= Seq::<Seq<char>>::empty());
        },
    }
    r
}

/// The services a service depends on (see [`depends_on_spec`]).
pub fn depends_on(v: Option<&Node>) -> (r: Vec<String>)
    ensures
        views(r@) == depends_on_spec(match v {
            Some(n) => Some(*n),
            None => None,
        }),
{
    match v {
        Some(Node::List(_)) => seq_of_strings(v),
        Some(Node::Mapping(entries)) => {
            let mut r: Vec<String> = Vec::new();
            let ghost per = entries@.map_values(|e: (Node, Node)| key_string(e));
            for i in 0..entries.len()
                invariant
                    per == entries@.map_values(|e: (Node, Node)| key_string(e)),
                    views(r@) == flatten(per.take(i as int)),
            {
                proof {
                    lemma_flatten_take(per, i as int);
                }
                let ghost before = r@;
                match &entries[i].0 {
                    Node::Text(s) => {
                        r.push(s.clone());
                        proof {
                            lemma_map_push(before, |x: String| x@, r@.last());
                        }
                    },
                    _ => {},
                }
                assert(views(r@) =~= views(before) + per[i as int]);
            }
            assert(per.take(entries.len() as int) =~= per);
            r
        },
        _ => {
            let r: Vec<String> = Vec::new();
            assert(views(r@) =~= Seq::<Seq<char>>::empty());
            r
        },
    }
}

fn service_of(e: &(Node, Node), source: &String) -> (r: Vec<ServiceUnit>)
    ensures
        services_view(r@) == compose_service(*e, source@),
{
    let mut r: Vec<ServiceUnit> = Vec::new();
    match &e.0 {
        Node::Text(name) => {
            let id = concat2("service:", name.as_str());
            let src = concat2("docker-compose:", source.as_str());
            r.push(
                ServiceUnit {
                    id,
                    name: name.clone(),
                    image: get_str(&e.1, "image"),
                    ports: seq_of_strings(get(&e.1, "ports")),
                    depends_on: depends_on(get(&e.1, "depends_on")),
                    source: src,
                },
            );
        },
        _ => {},
    }
    assert(services_view(r@) =~= compose_service(*e, source@));
    r
}

/// The services of one file (see [`file_services`]).
pub fn services_of_file(root: &str, f: &SourceFile) -> (r: Vec<ServiceUnit>)
    ensures
        services_view(r@) == file_services(root@, *f),
{
    let mut r: Vec<ServiceUnit> = Vec::new();
    let name = file_name_lc(f.path.as_str());
    let is_compose = (starts_with(name.as_str(), "docker-compose") || starts_with(
        name.as_str(),
        "compose",
    )) && (ends_with(name.as_str(), ".yml") || ends_with(name.as_str(), ".yaml"));
    if !is_compose {
        assert(services_view(r@) =~= Seq::<ServiceV>::empty());
        return r;
    }
    match (&f.text, &f.yaml) {
        (Some(_), Some(doc)) => match get(doc, "services") {
            Some(Node::Mapping(services)) => {
                let source = rel(root, f.path.as_str());
                let ghost per = services@.map_values(
                    |e: (Node, Node)| compose_service(e, source@),
                );
                for i in 0..services.len()
                    invariant
                        per == services@.map_values(|e: (Node, Node)| compose_service(e, source@)),
                        services_view(r@) == flatten(per.take(i as int)),
                {
                    proof {
                        lemma_flatten_take(per, i as int);
                    }
                    let ghost before = r@;
                    let mut more = service_of(&services[i], &source);
                    r.append(&mut more);
                    assert(services_view(r@) =~= services_view(before) + per[i as int]);
                }
                assert(per.take(services.len() as int) =~= per);
            },
            _ => {
                assert(services_view(r@) =~= Seq::<ServiceV>::empty());
            },
        },
        _ => {
            assert(services_view(r@) =~= Seq::<ServiceV>::empty());
        },
    }
    r
}

/// Extracts the services of every Compose file, in file order.
pub fn collect(project: &mut Project, root: &str, files: &Vec<SourceFile>)
    ensures
        final(project)@ == with_services(
            old(project)@,
            flatten(files@.map_values(|f: SourceFile| file_services(root@, f))),
        ),
{
    let ghost per = files@.map_values(|f: SourceFile| file_services(root@, f));
    let ghost start = project@;
    for i in 0..files.len()
        invariant
            per == files@.map_values(|f: SourceFile| file_services(root@, f)),
            project@ == with_services(start, flatten(per.take(i as int))),
    {
        proof {
            lemma_flatten_take(per, i as int);
        }
        let ghost before = project.services@;
        let mut more = services_of_file(root, &files[i]);
        project.services.append(&mut more);
        assert(services_view(project.services@) =~= services_view(before) + per[i as int]);
        assert(project@.services =~= start.services + flatten(per.take(i + 1)));
        assert(project@ == with_services(start, flatten(per.take(i + 1))));
    }
    assert(per.take(files.len() as int) =~= per);
}

} // verus!
