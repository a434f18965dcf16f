use archmind_core::analyzers::SourceFile;
use archmind_core::analyzers::syntax::parse_sources;
use archmind_core::model::{Component, ComponentKind, Endpoint, ForeignKey, Language, Project, RelationKind, ServiceUnit, Table};
use archmind_core::node::Node;
use archmind_core::project::{analyze, contains_word, derive_relations, is_skipped, link_layers};
use archmind_core::Error;

fn file(path: &str, text: &str) -> SourceFile {
    SourceFile {
        path: path.to_string(),
        text: Some(text.to_string()),
        json: None,
        yaml: None,
        yaml_docs: vec![],
        syntax: None,
    }
}

fn t(s: &str) -> Node {
    Node::Text(s.to_string())
}

fn map(entries: Vec<(&str, Node)>) -> Node {
    Node::Mapping(entries.into_iter().map(|(k, v)| (t(k), v)).collect())
}

fn component(id: &str, path: &str, members: &[&str]) -> Component {
    Component {
        id: id.to_string(),
        name: id.to_string(),
        kind: ComponentKind::Class,
        language: Language::CSharp,
        path: path.to_string(),
        members: members.iter().map(|m| m.to_string()).collect(),
    }
}

fn endpoint(id: &str, path: &str, op: Option<&str>) -> Endpoint {
    Endpoint {
        id: id.to_string(),
        method: "GET".to_string(),
        path: path.to_string(),
        operation_id: op.map(|o| o.to_string()),
        summary: None,
        source: "api.yaml".to_string(),
    }
}

fn table(id: &str, name: &str) -> Table {
    Table { id: id.to_string(), name: name.to_string(), schema: None, columns: vec![], foreign_keys: vec![] }
}

#[test]
fn skipped_folders() {
    assert!(is_skipped("/p/node_modules"));
    assert!(is_skipped("/p/a/.git"));
    assert!(!is_skipped("/p/src"));
    assert!(!is_skipped("/p/builds"));
}

#[test]
fn whole_words_only() {
    assert!(contains_word("select * from orders where", "orders"));
    assert!(!contains_word("select * from orders_archive", "orders"));
    assert!(contains_word("xorders orders", "orders"));
    assert!(contains_word("orders", "orders"));
    assert!(!contains_word("", "orders"));
    assert!(contains_word("è orders.", "orders"));
}

#[test]
fn derived_edges_of_services_and_foreign_keys() {
    let mut p = Project::new("/p", "p");
    p.services.push(ServiceUnit {
        id: "service:web".into(),
        name: "web".into(),
        image: None,
        ports: vec![],
        depends_on: vec!["db".into(), "cache".into()],
        source: "docker-compose:x".into(),
    });
    let mut t = table("table:orders", "orders");
    t.foreign_keys.push(ForeignKey {
        column: "customer_id".into(),
        references_table: "Customers".into(),
        references_column: "id".into(),
    });
    p.tables.push(t);
    derive_relations(&mut p);
    let got: Vec<(&str, &str, RelationKind)> = p.relations.iter().map(|r| (r.from.as_str(), r.to.as_str(), r.kind)).collect();
    assert_eq!(
        got,
        vec![
            ("service:web", "service:db", RelationKind::DependsOn),
            ("service:web", "service:cache", RelationKind::DependsOn),
            ("table:orders", "table:customers", RelationKind::References),
        ]
    );
}

#[test]
fn layers_linked_once() {
    let mut p = Project::new("/p", "p");
    p.components.push(component("cs:OrdersController", "Api/OrdersController.cs", &["ListOrders", "Get"]));
    p.components.push(component("cs:Other", "Api/OrdersController.cs", &["listorders"]));
    p.components.push(component("cs:NoFile", "", &[]));
    p.endpoints.push(endpoint("ep:GET /orders", "/orders", Some("listOrders")));
    p.endpoints.push(endpoint("ep:GET /orders/{id}/get", "/orders/{id}/get/{x}", None));
    p.endpoints.push(endpoint("ep:GET /nothing", "/nothing", Some("nope")));
    p.tables.push(table("table:orders", "Orders"));
    p.tables.push(table("table:ab", "ab"));
    let files = vec![file("/p/Api/OrdersController.cs", "var q = \"SELECT * FROM ORDERS\"; // ab")];
    link_layers(&mut p, "/p", &files);
    let got: Vec<(&str, &str, RelationKind)> = p.relations.iter().map(|r| (r.from.as_str(), r.to.as_str(), r.kind)).collect();
    assert_eq!(
        got,
        vec![
            ("cs:OrdersController", "ep:GET /orders", RelationKind::Exposes),
            ("cs:OrdersController", "ep:GET /orders/{id}/get", RelationKind::Exposes),
            ("cs:OrdersController", "table:orders", RelationKind::References),
            ("cs:Other", "table:orders", RelationKind::References),
        ]
    );
}

#[test]
fn a_path_that_is_not_a_folder_is_refused() {
    match analyze("/missing", false, None, &vec![], false, None) {
        Err(Error::BadPath(p)) => assert_eq!(p, "/missing"),
        _ => panic!("expected BadPath"),
    }
}

#[test]
fn analysis_of_a_small_project() {
    let mut api = file("/p/api.yaml", "openapi: 3.0.0");
    api.json = Some(map(vec![
        ("openapi", t("3.0.0")),
        ("paths", map(vec![("/orders", map(vec![("get", map(vec![("operationId", t("listOrders"))]))]))])),
    ]));
    let mut compose = file("/p/docker-compose.yml", "services:");
    compose.yaml = Some(map(vec![(
        "services",
        map(vec![("web", map(vec![("image", t("nginx")), ("depends_on", Node::List(vec![t("db")]))])), ("db", map(vec![]))]),
    )]));
    let mut pkg = file("/p/package.json", "{}");
    pkg.json = Some(map(vec![("dependencies", map(vec![("svelte", t("^5"))]))]));
    let files = vec![
        file("/p/App.java", "package com.shop;\npublic class App { public String run() { return \"\"; } }"),
        file("/p/Order.cs", "namespace Shop.Domain;\npublic class Order { public void Pay() {} }"),
        api,
        compose,
        pkg,
        file("/p/schema.sql", "CREATE TABLE orders (id INT PRIMARY KEY, customer_id INT REFERENCES customers(id));"),
    ];
    let p = match analyze("/p", true, Some("p".to_string()), &files, false, None) {
        Ok(p) => p,
        Err(_) => panic!("analysis failed"),
    };
    assert_eq!(p.name, "p");
    assert!(p.components.iter().any(|c| c.name == "Order"));
    assert!(p.components.iter().any(|c| c.name == "App"));
    assert!(p.endpoints.iter().any(|e| e.path == "/orders"));
    assert!(p.services.iter().any(|s| s.name == "web"));
    let t = p.tables.iter().find(|t| t.name == "orders").unwrap();
    assert_eq!(t.foreign_keys.len(), 1);
    assert!(p.dependencies.iter().any(|d| d.name == "svelte"));
    assert_eq!(p.stats.files, 6);
    assert!(p
        .relations
        .iter()
        .any(|r| r.from == "service:web" && r.to == "service:db" && r.kind == RelationKind::DependsOn));
    assert!(p
        .relations
        .iter()
        .any(|r| r.from == "table:orders" && r.to == "table:customers" && r.kind == RelationKind::References));
}

#[test]
fn unnamed_root_is_called_progetto() {
    let p = match analyze("/", true, None, &vec![], false, None) {
        Ok(p) => p,
        Err(_) => panic!("analysis failed"),
    };
    assert_eq!(p.name, "progetto");
    assert!(p.components.is_empty());
}

#[test]
fn analizza_un_progetto_minimo() {
    let mut api = file("/p/api.yaml", "openapi: 3.0.0\npaths:\n  /orders:\n    get:\n      operationId: listOrders\n");
    api.json = Some(map(vec![
        ("openapi", t("3.0.0")),
        ("paths", map(vec![("/orders", map(vec![("get", map(vec![("operationId", t("listOrders"))]))]))])),
    ]));
    let mut compose = file("/p/docker-compose.yml", "services:");
    compose.yaml = Some(map(vec![(
        "services",
        map(vec![
            ("web", map(vec![("image", t("nginx")), ("ports", Node::List(vec![t("80:80")])), ("depends_on", Node::List(vec![t("db")]))])),
            ("db", map(vec![("image", t("postgres"))])),
        ]),
    )]));
    let mut pkg = file("/p/package.json", "{\"dependencies\": {\"svelte\": \"^5\"}}");
    pkg.json = Some(map(vec![("dependencies", map(vec![("svelte", t("^5"))]))]));
    let mut files = vec![
        file("/p/Order.cs", "namespace Shop.Domain;\npublic class Order { public void Pay() {} }"),
        file("/p/App.java", "package com.shop;\npublic class App { public String run() { return \"\"; } }"),
        api,
        compose,
        file(
            "/p/schema.sql",
            "CREATE TABLE customers (id NUMBER PRIMARY KEY, name VARCHAR2(100));\nCREATE TABLE orders (id NUMBER PRIMARY KEY, customer_id NUMBER REFERENCES customers(id));",
        ),
        pkg,
    ];
    parse_sources(&mut files);
    let p = match analyze("/p", true, Some("p".to_string()), &files, false, None) {
        Ok(p) => p,
        Err(_) => panic!("analysis failed"),
    };
    assert!(p.components.iter().any(|c| c.name == "Order"), "manca classe C#");
    assert!(p.components.iter().any(|c| c.name == "App"), "manca classe Java");
    assert!(p.endpoints.iter().any(|e| e.path == "/orders"), "manca endpoint");
    assert!(p.services.iter().any(|s| s.name == "web"), "manca servizio compose");
    assert!(p.tables.iter().any(|t| t.name == "orders"), "manca tabella");
    assert!(p.tables.iter().any(|t| !t.foreign_keys.is_empty()), "manca foreign key");
    assert!(p.dependencies.iter().any(|d| d.name == "svelte"), "manca dipendenza");
    let md = archmind_core::docs::markdown::render(&p);
    assert!(md.contains("# "), "markdown vuoto");
    for kind in ["dependency", "component", "er", "class", "sequence", "flow"] {
        let d = archmind_core::diagrams::mermaid::render(&p, kind).ok().unwrap();
        assert!(!d.is_empty(), "diagramma {kind} vuoto");
    }
    let hits = archmind_core::search::search(&p, "orders");
    assert!(!hits.is_empty(), "ricerca senza risultati");
}

#[test]
fn csharp_and_java_calls_form_a_call_graph() {
    let mut files = vec![
        file("/p/A.cs", "namespace S;\npublic class A { public void Run() { new B().Pay(); } }"),
        file("/p/B.cs", "namespace S;\npublic class B { public void Pay() {} }"),
        file("/p/C.java", "package s;\npublic class C { void go() { new D().work(); } }"),
        file("/p/D.java", "package s;\npublic class D { void work() {} }"),
    ];
    parse_sources(&mut files);
    let p = match analyze("/p", true, Some("p".to_string()), &files, false, None) {
        Ok(p) => p,
        Err(_) => panic!("analysis failed"),
    };
    assert!(p.relations.iter().any(|r| r.from == "cs:A" && r.to == "cs:B" && r.kind == RelationKind::Calls));
    assert!(p.relations.iter().any(|r| r.from == "java:C" && r.to == "java:D" && r.kind == RelationKind::Calls));
    assert_eq!(p.components.iter().filter(|c| c.id == "cs:A").count(), 1);
    let class = archmind_core::diagrams::mermaid::render(&p, "class").ok().unwrap();
    assert!(class.contains("  A --> B : chiama\n"));
}
