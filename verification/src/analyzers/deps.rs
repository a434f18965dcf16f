//! Declared dependencies: NuGet (`.csproj`), Maven (`pom.xml`), npm
//! (`package.json`).

use vstd::prelude::*;
use super::{SourceFile, file_name_lc, file_name_lc_of, group, group_at, regex_captures, regex_captures_of, rel, rel_of};
use crate::model::{Dependency, DependencyV, Project, ProjectV, dependencies_view};
use crate::node::{Node, node_get, node_str};
use crate::text::{concat2, ends_with, flatten, has_suffix, lemma_flatten_take, lemma_map_push, owned, str_eq, trim, trim_seq};

verus! {

broadcast use vstd::seq_lib::group_seq_properties;

/// `<PackageReference Include="X" Version="Y" />`
pub const NUGET_PATTERN: &'static str = r#"(?i)<PackageReference\s+Include="([^"]+)"(?:\s+Version="([^"]*)")?"#;

/// `<dependency><groupId>g</groupId><artifactId>a</artifactId><version>v</version>`
pub const MAVEN_PATTERN: &'static str = r#"(?is)<dependency>.*?<groupId>(.*?)</groupId>.*?<artifactId>(.*?)</artifactId>(?:.*?<version>(.*?)</version>)?.*?</dependency>"#;

// ---------------------------------------------------------------------------
// Specification
// ---------------------------------------------------------------------------

/// A NuGet package reference; an empty version counts as none.
pub open spec fn nuget_dep(m: Seq<Option<Seq<char>>>, place: Seq<char>) -> Seq<DependencyV> {
    match group(m, 1) {
        Some(name) => seq![
            DependencyV {
                name: name,
                version: match group(m, 2) {
                    Some(v) => if v.len() > 0 {
                        Some(v)
                    } else {
                        None
                    },
                    None => None,
                },
                ecosystem: "NuGet"@,
                declared_in: place,
            },
        ],
        None => Seq::empty(),
    }
}

/// A Maven dependency, named `groupId:artifactId` (both trimmed).
pub open spec fn maven_dep(m: Seq<Option<Seq<char>>>, place: Seq<char>) -> Seq<DependencyV> {
    match (group(m, 1), group(m, 2)) {
        (Some(g), Some(a)) => seq![
            DependencyV {
                name: trim_seq(g) + ":"@ + trim_seq(a),
                version: match group(m, 3) {
                    Some(v) => Some(trim_seq(v)),
                    None => None,
                },
                ecosystem: "Maven"@,
                declared_in: place,
            },
        ],
        _ => Seq::empty(),
    }
}

/// The dependencies of every match of `pattern` in `text`.
pub open spec fn regex_deps(pattern: Seq<char>, text: Seq<char>, place: Seq<char>, maven: bool) -> Seq<DependencyV> {
    match regex_captures_of(pattern, text) {
        Some(ms) => flatten(
            ms.map_values(
                |m: Seq<Option<Seq<char>>>|
                    if maven {
                        maven_dep(m, place)
                    } else {
                        nuget_dep(m, place)
                    },
            ),
        ),
        None => Seq::empty(),
    }
}

/// An entry of an npm dependency table: its name, and its version when it
/// is a string.
pub open spec fn npm_entry(e: (Node, Node), place: Seq<char>) -> Seq<DependencyV> {
    match e.0 {
        Node::Text(name) => seq![
            DependencyV {
                name: name@,
                version: node_str(Some(e.1)),
                ecosystem: "npm"@,
                declared_in: place,
            },
        ],
        _ => Seq::empty(),
    }
}

/// The entries of the table under `key`, when it is a mapping.
pub open spec fn npm_table(doc: Node, key: Seq<char>, place: Seq<char>) -> Seq<DependencyV> {
    match node_get(doc, key) {
        Some(Node::Mapping(entries)) => flatten(
            entries@.map_values(|e: (Node, Node)| npm_entry(e, place)),
        ),
        _ => Seq::empty(),
    }
}

/// `dependencies`, then `devDependencies`, of a parsed `package.json`.
pub open spec fn npm_deps(json: Option<Node>, place: Seq<char>) -> Seq<DependencyV> {
    match json {
        Some(doc) => npm_table(doc, "dependencies"@, place) + npm_table(
            doc,
            "devDependencies"@,
            place,
        ),
        None => Seq::empty(),
    }
}

/// The dependencies one readable manifest declares, chosen by file name.
pub open spec fn file_dependencies(root: Seq<char>, f: SourceFile) -> Seq<DependencyV> {
    let name = file_name_lc_of(f.path@);
    let place = rel_of(root, f.path@);
    match f.text {
        None => Seq::empty(),
        Some(t) => if has_suffix(name, ".csproj"@) {
            regex_deps(NUGET_PATTERN@, t@, place, false)
        } else if name == "pom.xml"@ {
            regex_deps(MAVEN_PATTERN@, t@, place, true)
        } else if name == "package.json"@ {
            npm_deps(f.json, place)
        } else {
            Seq::empty()
        },
    }
}

pub open spec fn with_dependencies(p: ProjectV, deps: Seq<DependencyV>) -> ProjectV {
    ProjectV { dependencies: p.dependencies + deps, ..p }
}

// ---------------------------------------------------------------------------
// Implementation
// ---------------------------------------------------------------------------

fn dep_of_match(m: &Vec<Option<String>>, place: &String, maven: bool) -> (r: Vec<Dependency>)
    ensures
        dependencies_view(r@) == if maven {
            maven_dep(m.deep_view(), place@)
        } else {
            nuget_dep(m.deep_view(), place@)
        },
{
    let mut r: Vec<Dependency> = Vec::new();
    if maven {
        match (group_at(m, 1), group_at(m, 2)) {
            (Some(g), Some(a)) => {
                let g2 = trim(g.as_str());
                let a2 = trim(a.as_str());
                let left = concat2(g2.as_str(), ":");
                let name = concat2(left.as_str(), a2.as_str());
                let version = match group_at(m, 3) {
                    Some(v) => Some(trim(v.as_str())),
                    None => None,
                };
                r.push(
                    Dependency {
                        name,
                        version,
                        ecosystem: owned("Maven"),
                        declared_in: place.clone(),
                    },
                );
                assert(dependencies_view(r@) =~= maven_dep(m.deep_view(), place@));
            },
            _ => {
                assert(dependencies_view(r@) =~= maven_dep(m.deep_view(), place@));
            },
        }
    } else {
        match group_at(m, 1) {
            Some(name) => {
                let version = match group_at(m, 2) {
                    Some(v) => if !v.as_str().is_empty() {
                        Some(v)
                    } else {
                        None
                    },
                    None => None,
                };
                r.push(
                    Dependency {
                        name,
                        version,
                        ecosystem: owned("NuGet"),
                        declared_in: place.clone(),
                    },
                );
                assert(dependencies_view(r@) =~= nuget_dep(m.deep_view(), place@));
            },
            None => {
                assert(dependencies_view(r@) =~= nuget_dep(m.deep_view(), place@));
            },
        }
    }
    r
}

fn regex_dependencies(pattern: &str, text: &str, place: &String, maven: bool) -> (r: Vec<Dependency>)
    ensures
        dependencies_view(r@) == regex_deps(pattern@, text@, place@, maven),
{
    let mut r: Vec<Dependency> = Vec::new();
    match regex_captures(pattern, text) {
        None => {
            assert(dependencies_view(r@) =~= Seq::<DependencyV>::empty());
        },
        Some(ms) => {
            let ghost mv = ms.deep_view();
            let ghost per = mv.map_values(
                |m: Seq<Option<Seq<char>>>|
                    if maven {
                        maven_dep(m, place@)
                    } else {
                        nuget_dep(m, place@)
                    },
            );
            for i in 0..ms.len()
                invariant
                    mv == ms.deep_view(),
                    per == mv.map_values(
                        |m: Seq<Option<Seq<char>>>|
                            if maven {
                                maven_dep(m, place@)
                            } else {
                                nuget_dep(m, place@)
                            },
                    ),
                    dependencies_view(r@) == flatten(per.take(i as int)),
            {
                proof {
                    lemma_flatten_take(per, i as int);
                }
                let ghost before = r@;
                let mut more = dep_of_match(&ms[i], place, maven);
                assert(mv[i as int] == ms[i as int].deep_view());
                r.append(&mut more);
                assert(dependencies_view(r@) =~= dependencies_view(before) + per[i as int]);
            }
            assert(per.take(ms.len() as int) =~= per);
        },
    }
    r
}

fn npm_table_of(doc: &Node, key: &str, place: &String) -> (r: Vec<Dependency>)
    ensures
        dependencies_view(r@) == npm_table(*doc, key@, place@),
{
    let mut r: Vec<Dependency> = Vec::new();
    match crate::node::get(doc, key) {
        Some(Node::Mapping(entries)) => {
            let ghost per = entries@.map_values(|e: (Node, Node)| npm_entry(e, place@));
            for i in 0..entries.len()
                invariant
                    per == entries@.map_values(|e: (Node, Node)| npm_entry(e, place@)),
                    dependencies_view(r@) == flatten(per.take(i as int)),
            {
                proof {
                    lemma_flatten_take(per, i as int);
                }
                let ghost before = r@;
                match &entries[i].0 {
                    Node::Text(name) => {
                        let version = match &entries[i].1 {
                            Node::Text(v) => Some(v.clone()),
                            _ => None,
                        };
                        r.push(
                            Dependency {
                                name: name.clone(),
                                version,
                                ecosystem: owned("npm"),
                                declared_in: place.clone(),
                            },
                        );
                        proof {
                            lemma_map_push(before, |d: Dependency| d@, r@.last());
                        }
                    },
                    _ => {},
                }
                assert(dependencies_view(r@) =~= dependencies_view(before) + per[i as int]);
            }
            assert(per.take(entries.len() as int) =~= per);
        },
        _ => {
            assert(dependencies_view(r@) =~= Seq::<DependencyV>::empty());
        },
    }
    r
}

/// The dependencies of one file (see [`file_dependencies`]).
pub fn dependencies_of_file(root: &str, f: &SourceFile) -> (r: Vec<Dependency>)
    ensures
        dependencies_view(r@) == file_dependencies(root@, *f),
{
    let name = file_name_lc(f.path.as_str());
    let place = rel(root, f.path.as_str());
    match &f.text {
        None => {
            let r: Vec<Dependency> = Vec::new();
            assert(dependencies_view(r@) =~= Seq::<DependencyV>::empty());
            r
        },
        Some(t) => {
            if ends_with(name.as_str(), ".csproj") {
                regex_dependencies(NUGET_PATTERN, t.as_str(), &place, false)
            } else if str_eq(name.as_str(), "pom.xml") {
                regex_dependencies(MAVEN_PATTERN, t.as_str(), &place, true)
            } else if str_eq(name.as_str(), "package.json") {
                match &f.json {
                    Some(doc) => {
                        let mut a = npm_table_of(doc, "dependencies", &place);
                        let mut b = npm_table_of(doc, "devDependencies", &place);
                        let ghost va = a@;
                        a.append(&mut b);
                        assert(dependencies_view(a@) =~= dependencies_view(va) + npm_table(
                            *doc,
                            "devDependencies"@,
                            place@,
                        ));
                        a
                    },
                    None => {
                        let r: Vec<Dependency> = Vec::new();
                        assert(dependencies_view(r@) =~= Seq::<DependencyV>::empty());
                        r
                    },
                }
            } else {
                let r: Vec<Dependency> = Vec::new();
                assert(dependencies_view(r@) =~= Seq::<DependencyV>::empty());
                r
            }
        },
    }
}

/// Extracts the dependencies of every recognised manifest, in file order.
pub fn collect(project: &mut Project, root: &str, files: &Vec<SourceFile>)
    ensures
        final(project)@ == with_dependencies(
            old(project)@,
            flatten(files@.map_values(|f: SourceFile| file_dependencies(root@, f))),
        ),
{
    let ghost per = files@.map_values(|f: SourceFile| file_dependencies(root@, f));
    let ghost start = project@;
    for i in 0..files.len()
        invariant
            per == files@.map_values(|f: SourceFile| file_dependencies(root@, f)),
            project@ == with_dependencies(start, flatten(per.take(i as int))),
    {
        proof {
            lemma_flatten_take(per, i as int);
        }
        let ghost before = project.dependencies@;
        let mut more = dependencies_of_file(root, &files[i]);
        project.dependencies.append(&mut more);
        assert(dependencies_view(project.dependencies@) =~= dependencies_view(before) + per[i as int]);
        assert(project@.dependencies =~= start.dependencies + flatten(per.take(i + 1)));
        assert(project@ == with_dependencies(start, flatten(per.take(i + 1))));
    }
    assert(per.take(files.len() as int) =~= per);
}

} // verus!
