//! Kubernetes manifests: the YAML documents with `apiVersion` and `kind`
//! become units (Deployment, Service, StatefulSet...). A file may hold several
//! documents separated by `---`: all of them are read.

use vstd::prelude::*;
use super::{SourceFile, ext, ext_of, rel, rel_of};
use crate::model::{Project, ProjectV, ServiceUnit, ServiceV, services_view};
use crate::node::{Node, get, get_str, node_get, node_str};
use crate::text::{concat2, flatten, lemma_flatten_take, opt_view, str_eq, views};
use super::docker_compose::with_services;

verus! {

broadcast use vstd::seq_lib::group_seq_properties;

/// `get(key)` on an optional value.
pub open spec fn get_in(v: Option<Node>, key: Seq<char>) -> Option<Node> {
    match v {
        Some(n) => node_get(n, key),
        None => None,
    }
}

/// The first container, in order, that declares a string `image`.
pub open spec fn first_image_in(cs: Seq<Node>) -> Option<Seq<char>>
    decreases cs.len(),
{
    if cs.len() == 0 {
        None
    } else {
        match node_str(node_get(cs[0], "image"@)) {
            Some(i) => Some(i),
            None => first_image_in(cs.drop_first()),
        }
    }
}

/// The first `image` of `spec.template.spec.containers`.
pub open spec fn first_image_spec(v: Node) -> Option<Seq<char>> {
    match get_in(get_in(get_in(node_get(v, "spec"@), "template"@), "spec"@), "containers"@) {
        Some(Node::List(cs)) => first_image_in(cs@),
        _ => None,
    }
}

/// The unit of one document: it needs a string `kind`, a string
/// `metadata.name` and an `apiVersion`.
pub open spec fn manifest_unit(doc: Option<Node>, source: Seq<char>) -> Seq<ServiceV> {
    match doc {
        Some(v) => match (node_str(node_get(v, "kind"@)), node_str(get_in(node_get(v, "metadata"@), "name"@))) {
            (Some(kind), Some(name)) => if node_get(v, "apiVersion"@) is Some {
                seq![
                    ServiceV {
                        id: "k8s:"@ + kind + "/"@ + name,
                        name: kind + "/"@ + name,
                        image: first_image_spec(v),
                        ports: Seq::empty(),
                        depends_on: Seq::empty(),
                        source: "kubernetes:"@ + source,
                    },
                ]
            } else {
                Seq::empty()
            },
            _ => Seq::empty(),
        },
        None => Seq::empty(),
    }
}

/// The units of one readable `.yaml`/`.yml` file, document by document.
pub open spec fn file_units(root: Seq<char>, f: SourceFile) -> Seq<ServiceV> {
    let e = ext_of(f.path@);
    if !(e == "yaml"@ || e == "yml"@) {
        Seq::empty()
    } else {
        match f.text {
            Some(_) => flatten(
                f.yaml_docs@.map_values(|d: Option<Node>| manifest_unit(d, rel_of(root, f.path@))),
            ),
            None => Seq::empty(),
        }
    }
}

// ---------------------------------------------------------------------------
// Implementation
// ---------------------------------------------------------------------------

fn get_opt<'a>(v: Option<&'a Node>, key: &str) -> (r: Option<&'a Node>)
    ensures
        match r {
            Some(x) => get_in(match v { Some(n) => Some(*n), None => None }, key@) == Some(*x),
            None => get_in(match v { Some(n) => Some(*n), None => None }, key@) is None,
        },
{
    match v {
        Some(n) => get(n, key),
        None => None,
    }
}

/// The first image declared by the containers of a manifest.
pub fn first_image(v: &Node) -> (r: Option<String>)
    ensures
        match r {
            Some(s) => first_image_spec(*v) == Some(s@),
            None => first_image_spec(*v) is None,
        },
{
    let containers = get_opt(get_opt(get_opt(get(v, "spec"), "template"), "spec"), "containers");
    match containers {
        Some(Node::List(cs)) => {
            assert(first_image_spec(*v) == first_image_in(cs@));
            let mut i: usize = 0;
            while i < cs.len()
                invariant
                    i <= cs@.len(),
                    first_image_spec(*v) == first_image_in(cs@),
                    first_image_in(cs@) == first_image_in(cs@.subrange(i as int, cs@.len() as int)),
                decreases cs@.len() - i,
            {
                assert(cs@.subrange(i as int, cs@.len() as int).drop_first() =~= cs@.subrange(
                    i + 1,
                    cs@.len() as int,
                ));
                match get_str(&cs[i], "image") {
                    Some(s) => {
                        assert(cs@.subrange(i as int, cs@.len() as int)[0] == cs@[i as int]);
                        return Some(s);
                    },
                    None => {},
                }
                i += 1;
            }
            None
        },
        _ => None,
    }
}

fn unit_of(doc: &Option<Node>, source: &String) -> (r: Vec<ServiceUnit>)
    ensures
        services_view(r@) == manifest_unit(*doc, source@),
{
    let mut r: Vec<ServiceUnit> = Vec::new();
    match doc {
        Some(v) => {
            let kind = get_str(v, "kind");
            let name = match get(v, "metadata") {
                Some(m) => get_str(m, "name"),
                None => None,
            };
            assert(kind.deep_view() == node_str(node_get(*v, "kind"@)));
            assert(name.deep_view() == node_str(get_in(node_get(*v, "metadata"@), "name"@)));
            match (kind, name) {
                (Some(kind), Some(name)) => {
                    if get(v, "apiVersion").is_some() {
                        let a = concat2(kind.as_str(), "/");
                        let full = concat2(a.as_str(), name.as_str());
                        let id = concat2("k8s:", full.as_str());
                        assert(id@ =~= "k8s:"@ + kind@ + "/"@ + name@);
                        let src = concat2("kubernetes:", source.as_str());
                        let ports: Vec<String> = Vec::new();
                        let deps: Vec<String> = Vec::new();
                        assert(views(ports@) =~= Seq::<Seq<char>>::empty());
                        assert(views(deps@) =~= Seq::<Seq<char>>::empty());
                        let image = first_image(v);
                        assert(opt_view(image) == first_image_spec(*v));
                        r.push(
                            ServiceUnit {
                                id,
                                name: full,
                                image,
                                ports,
                                depends_on: deps,
                                source: src,
                            },
                        );
                        assert(services_view(r@) =~= manifest_unit(*doc, source@));
                    }
                },
                _ => {},
            }
        },
        None => {},
    }
    assert(services_view(r@) =~= manifest_unit(*doc, source@));
    r
}

/// The units of one file (see [`file_units`]).
pub fn units_of_file(root: &str, f: &SourceFile) -> (r: Vec<ServiceUnit>)
    ensures
        services_view(r@) == file_units(root@, *f),
{
    let mut r: Vec<ServiceUnit> = Vec::new();
    let e = ext(f.path.as_str());
    if !(str_eq(e.as_str(), "yaml") || str_eq(e.as_str(), "yml")) || f.text.is_none() {
        assert(services_view(r@) =~= Seq::<ServiceV>::empty());
        return r;
    }
    let source = rel(root, f.path.as_str());
    let ghost per = f.yaml_docs@.map_values(|d: Option<Node>| manifest_unit(d, source@));
    for i in 0..f.yaml_docs.len()
        invariant
            per == f.yaml_docs@.map_values(|d: Option<Node>| manifest_unit(d, source@)),
            services_view(r@) == flatten(per.take(i as int)),
    {
        proof {
            lemma_flatten_take(per, i as int);
        }
        let ghost before = r@;
        let mut more = unit_of(&f.yaml_docs[i], &source);
        r.append(&mut more);
        assert(services_view(r@) =~= services_view(before) + per[i as int]);
    }
    assert(per.take(f.yaml_docs.len() as int) =~= per);
    r
}

/// Extracts the Kubernetes resources of every manifest, in file order.
pub fn collect(project: &mut Project, root: &str, files: &Vec<SourceFile>)
    ensures
        final(project)@ == with_services(
            old(project)@,
            flatten(files@.map_values(|f: SourceFile| file_units(root@, f))),
        ),
{
    let ghost per = files@.map_values(|f: SourceFile| file_units(root@, f));
    let ghost start = project@;
    for i in 0..files.len()
        invariant
            per == files@.map_values(|f: SourceFile| file_units(root@, f)),
            project@ == with_services(start, flatten(per.take(i as int))),
    {
        proof {
            lemma_flatten_take(per, i as int);
        }
        let ghost before = project.services@;
        let mut more = units_of_file(root, &files[i]);
        project.services.append(&mut more);
        assert(services_view(project.services@) =~= services_view(before) + per[i as int]);
        assert(project@.services =~= start.services + flatten(per.take(i + 1)));
        assert(project@ == with_services(start, flatten(per.take(i + 1))));
    }
    assert(per.take(files.len() as int) =~= per);
}

} // verus!
