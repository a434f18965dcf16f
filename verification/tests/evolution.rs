use archmind_core::evolution::{diff, upstream};
use archmind_core::model::{Component, ComponentKind, Language, Project, Relation, RelationKind};

fn component(id: &str, members: &[&str]) -> Component {
    Component {
        id: id.into(),
        name: id.into(),
        kind: ComponentKind::Class,
        language: Language::Java,
        path: "x.java".into(),
        members: members.iter().map(|m| m.to_string()).collect(),
    }
}

#[test]
fn diff_of_a_version_with_itself_is_empty() {
    let mut p = Project::new("/p", "p");
    p.components.push(component("java:A", &["run"]));
    let q = Project::new("/p", "p");
    let mut q = q;
    q.components.push(component("java:A", &["run"]));
    let cs = diff(&p, &q);
    assert!(cs.added.is_empty());
    assert!(cs.removed.is_empty());
    assert!(cs.modified.is_empty());
    assert!(cs.impacted.is_empty());
}

#[test]
fn diff_finds_added_removed_and_modified() {
    let mut old = Project::new("/p", "p");
    old.components.push(component("java:A", &["run"]));
    old.components.push(component("java:Gone", &[]));
    old.relations.push(Relation { from: "java:Caller".into(), to: "java:A".into(), kind: RelationKind::Calls });
    let mut new = Project::new("/p", "p");
    new.components.push(component("java:A", &["run", "stop"]));
    new.components.push(component("java:New", &[]));
    let cs = diff(&old, &new);
    let ids = |v: &Vec<archmind_core::evolution::EntityChange>| v.iter().map(|c| c.id.clone()).collect::<Vec<_>>();
    assert_eq!(ids(&cs.added), vec!["java:New".to_string()]);
    assert_eq!(ids(&cs.removed), vec!["java:Gone".to_string()]);
    assert_eq!(ids(&cs.modified), vec!["java:A".to_string()]);
    assert_eq!(cs.impacted.len(), 1);
    assert_eq!(cs.impacted[0].changed, "java:A");
    assert_eq!(cs.impacted[0].dependents, vec!["java:Caller".to_string()]);
}

#[test]
fn upstream_follows_edges_backwards() {
    let edges = vec![
        Relation { from: "b".into(), to: "a".into(), kind: RelationKind::Calls },
        Relation { from: "c".into(), to: "b".into(), kind: RelationKind::DependsOn },
        Relation { from: "d".into(), to: "x".into(), kind: RelationKind::Calls },
    ];
    let up = upstream(&edges, &"a".to_string());
    assert_eq!(up, vec!["b".to_string(), "c".to_string()]);
}

#[test]
fn reordering_methods_changes_nothing() {
    let mut a = Project::new("/p", "p");
    a.components.push(component("cs:A", &["Pay", "Run", "Pay"]));
    a.relations.push(Relation { from: "cs:B".into(), to: "cs:A".into(), kind: RelationKind::Calls });
    let mut b = Project::new("/p", "p");
    b.components.push(component("cs:A", &["Run", "Pay", "Pay"]));
    let cs = diff(&a, &b);
    assert!(cs.added.is_empty() && cs.removed.is_empty() && cs.modified.is_empty() && cs.impacted.is_empty());
}

#[test]
fn swapped_comparisons_agree() {
    let mut a = Project::new("/p", "p");
    a.components.push(component("cs:A", &["Pay"]));
    a.components.push(component("cs:B", &["Run"]));
    let mut b = Project::new("/p", "p");
    b.components.push(component("cs:B", &["Run", "Stop"]));
    b.components.push(component("cs:C", &[]));
    let ab = diff(&a, &b);
    let ba = diff(&b, &a);
    let ids = |v: &Vec<archmind_core::evolution::EntityChange>| v.iter().map(|c| c.id.clone()).collect::<Vec<_>>();
    assert_eq!(ids(&ab.added), ids(&ba.removed));
    assert_eq!(ids(&ab.removed), ids(&ba.added));
    assert_eq!(ids(&ab.modified), ids(&ba.modified));
    assert_eq!(ids(&ab.modified), vec!["cs:B".to_string()]);
}
