use archmind_core::diagrams::{self, dot, extension, mermaid, plantuml};
use archmind_core::model::{Component, ComponentKind, Dependency, Endpoint, Language, Project, Relation, RelationKind, ServiceUnit};
use archmind_core::Error;

fn shop() -> Project {
    let mut p = Project::new("/p", "shop");
    p.dependencies.push(Dependency {
        name: "svelte".into(),
        version: Some("^5".into()),
        ecosystem: "npm".into(),
        declared_in: "package.json".into(),
    });
    p.endpoints.push(Endpoint {
        id: "ep:GET /orders".into(),
        method: "GET".into(),
        path: "/orders".into(),
        operation_id: Some("listOrders".into()),
        summary: None,
        source: "api.yaml".into(),
    });
    p
}

fn class(id: &str, name: &str, kind: ComponentKind, members: &[&str]) -> Component {
    Component {
        id: id.into(),
        name: name.into(),
        kind,
        language: Language::CSharp,
        path: "x.cs".into(),
        members: members.iter().map(|m| m.to_string()).collect(),
    }
}

fn text(r: Result<String, Error>) -> String {
    match r {
        Ok(s) => s,
        Err(e) => panic!("{}", e.message()),
    }
}

#[test]
fn mermaid_dependency_graph() {
    let d = text(mermaid::render(&shop(), "dependency"));
    assert_eq!(d, "graph LR\n  shop([\"shop\"])\n  shop --> npm_svelte[\"svelte<br/>^5\"]\n");
}

#[test]
fn mermaid_placeholders_for_empty_projects() {
    let p = Project::new("/p", "p");
    assert_eq!(text(mermaid::render(&p, "component")), "graph TD\n  empty[\"Nessun servizio rilevato\"]\n");
    assert_eq!(text(mermaid::render(&p, "er")), "erDiagram\n  NESSUNA_TABELLA { string nota }\n");
    assert_eq!(text(mermaid::render(&p, "class")), "classDiagram\n  class NessunaClasse\n");
    assert_eq!(
        text(mermaid::render(&p, "sequence")),
        "sequenceDiagram\n  participant Client\n  participant API\n  Client->>API: (nessun endpoint rilevato)\n"
    );
}

#[test]
fn mermaid_sequence_of_endpoints() {
    assert_eq!(
        text(mermaid::render(&shop(), "sequence")),
        "sequenceDiagram\n  participant Client\n  participant API\n  Client->>API: GET /orders\n  API-->>Client: 200 OK\n"
    );
}

#[test]
fn mermaid_class_and_component_diagrams() {
    let mut p = Project::new("/p", "p");
    p.components.push(class("cs:Order", "Order", ComponentKind::Class, &["Pay", "get-x"]));
    p.components.push(class("ns:Shop", "Shop", ComponentKind::Namespace, &[]));
    p.components.push(class("cs:IRepo", "IRepo", ComponentKind::Interface, &[]));
    assert_eq!(
        text(mermaid::render(&p, "class")),
        "classDiagram\n  class Order {\n    +Pay()\n    +get_x()\n  }\n  class IRepo {\n    <<interface>>\n  }\n"
    );
    p.services.push(ServiceUnit {
        id: "service:web".into(),
        name: "web".into(),
        image: Some("nginx".into()),
        ports: vec![],
        depends_on: vec![],
        source: "c".into(),
    });
    p.relations.push(Relation { from: "service:web".into(), to: "service:db".into(), kind: RelationKind::DependsOn });
    p.relations.push(Relation { from: "a".into(), to: "b".into(), kind: RelationKind::Calls });
    assert_eq!(
        text(mermaid::render(&p, "component")),
        "graph TD\n  service_web[\"web<br/><small>nginx</small>\"]\n  service_web --> service_db\n"
    );
}

#[test]
fn mermaid_ids_are_safe() {
    assert_eq!(mermaid::id("1abc"), "n_1abc");
    assert_eq!(mermaid::id("a-b c"), "a_b_c");
    assert_eq!(mermaid::id(""), "n_");
    assert_eq!(mermaid::id("città"), "città");
}

#[test]
fn unknown_kinds_and_formats_are_refused() {
    let p = Project::new("/p", "p");
    match mermaid::render(&p, "gantt") {
        Err(Error::UnknownDiagram(k)) => assert_eq!(k, "gantt"),
        _ => panic!("expected an error"),
    }
    match diagrams::render(&p, "er", "svg") {
        Err(Error::UnknownDiagram(k)) => assert_eq!(k, "formato svg"),
        _ => panic!("expected an error"),
    }
    match diagrams::render(&p, "er", "dot") {
        Err(Error::UnknownDiagram(k)) => assert_eq!(k, "dot: er"),
        _ => panic!("expected an error"),
    }
    match plantuml::render(&p, "er") {
        Err(e) => assert_eq!(e.message(), "tipo di diagramma non supportato: plantuml: er"),
        _ => panic!("expected an error"),
    }
}

#[test]
fn diagram_file_extensions() {
    assert_eq!(extension("plantuml"), "puml");
    assert_eq!(extension("dot"), "dot");
    assert_eq!(extension("mermaid"), "mmd");
    assert_eq!(extension("anything"), "mmd");
}

#[test]
fn dot_dependency_graph_and_escapes() {
    assert_eq!(
        text(dot::render(&shop(), "dependency")),
        "digraph dependencies {\n  rankdir=LR;\n  node [shape=box, style=rounded];\n  n_shop [label=\"shop\", shape=ellipse];\n  n_shop -> n_npm_svelte;\n  n_npm_svelte [label=\"svelte\"];\n}\n"
    );
    assert_eq!(dot::esc("a\"b\\c"), "a\\\"b\\\\c");
    assert_eq!(dot::id("x.y"), "n_x_y");
}

#[test]
fn dot_flow_of_layers() {
    let mut p = shop();
    p.components.push(class("cs:Ctl", "Ctl", ComponentKind::Class, &[]));
    p.relations.push(Relation { from: "cs:Ctl".into(), to: "ep:GET /orders".into(), kind: RelationKind::Exposes });
    p.relations.push(Relation { from: "cs:Ctl".into(), to: "ghost".into(), kind: RelationKind::Exposes });
    assert_eq!(
        text(dot::render(&p, "flow")),
        "digraph flow {\n  rankdir=LR;\n  node [shape=box, style=rounded];\n  n_ep_GET__orders [label=\"GET /orders\"];\n  n_cs_Ctl [label=\"Ctl\"];\n  n_ep_GET__orders -> n_cs_Ctl;\n}\n"
    );
}

#[test]
fn plantuml_class_component_and_sequence() {
    let mut p = Project::new("/p", "p");
    p.components.push(class("cs:Order", "Order", ComponentKind::Class, &["Pay"]));
    p.components.push(class("cs:IRepo", "IRepo", ComponentKind::Interface, &[]));
    p.relations.push(Relation { from: "cs:Order".into(), to: "cs:IRepo".into(), kind: RelationKind::Calls });
    assert_eq!(
        text(plantuml::render(&p, "class")),
        "@startuml\nclass Order {\n  +Pay()\n}\ninterface IRepo {\n}\nOrder ..> IRepo\n@enduml\n"
    );
    p.services.push(ServiceUnit {
        id: "service:web".into(),
        name: "web".into(),
        image: None,
        ports: vec![],
        depends_on: vec![],
        source: "c".into(),
    });
    p.relations.push(Relation { from: "service:web".into(), to: "service:db".into(), kind: RelationKind::DependsOn });
    assert_eq!(
        text(plantuml::render(&p, "component")),
        "@startuml\ncomponent [web]\n[web] --> [db]\n@enduml\n"
    );
    assert_eq!(
        text(plantuml::render(&shop(), "sequence")),
        "@startuml\nactor Client\nparticipant API\nClient -> API: GET /orders\nAPI --> Client: 200 OK\n@enduml\n"
    );
}

#[test]
fn mermaid_flow_of_layers_and_class_calls() {
    let mut p = shop();
    p.components.push(class("cs:Ctl", "Ctl", ComponentKind::Class, &[]));
    p.components.push(class("cs:Repo", "Repo", ComponentKind::Class, &[]));
    p.relations.push(Relation { from: "cs:Ctl".into(), to: "ep:GET /orders".into(), kind: RelationKind::Exposes });
    p.relations.push(Relation { from: "cs:Ctl".into(), to: "ghost".into(), kind: RelationKind::Exposes });
    p.relations.push(Relation { from: "cs:Ctl".into(), to: "cs:Repo".into(), kind: RelationKind::Calls });
    p.relations.push(Relation { from: "cs:Ctl".into(), to: "cs:Missing".into(), kind: RelationKind::Calls });
    assert_eq!(
        text(mermaid::render(&p, "flow")),
        "graph LR\n  ep_GET__orders[\"GET /orders\"] --> cs_Ctl[\"Ctl\"]\n"
    );
    assert_eq!(
        text(mermaid::render(&p, "class")),
        "classDiagram\n  class Ctl {\n  }\n  class Repo {\n  }\n  Ctl --> Repo : chiama\n"
    );
    assert_eq!(text(mermaid::render(&Project::new("/p", "p"), "flow")), "graph LR\n");
}
