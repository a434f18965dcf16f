use archmind_core::analyzers::syntax::{parse_sources, parse_text};
use archmind_core::analyzers::treesitter::{self, Lang};
use archmind_core::analyzers::{config, csharp, database, deps, docker_compose, ext, file_name, git, java, kubernetes, openapi, rel, stats, SourceFile};
use archmind_core::model::{ComponentKind, Language, Project, RelationKind};
use archmind_core::node::{Node, SyntaxNode};

fn file(path: &str, text: &str) -> SourceFile {
    SourceFile {
        path: path.to_string(),
        text: Some(text.to_string()),
        json: None,
        yaml: None,
        yaml_docs: vec![],
        syntax: None,
    }
}

fn t(s: &str) -> Node {
    Node::Text(s.to_string())
}

fn map(entries: Vec<(&str, Node)>) -> Node {
    Node::Mapping(entries.into_iter().map(|(k, v)| (t(k), v)).collect())
}

fn leaf(kind: &str, field: Option<&str>, text: &str) -> SyntaxNode {
    SyntaxNode {
        kind: kind.to_string(),
        text: text.to_string(),
        field: field.map(|f| f.to_string()),
        children: vec![],
    }
}

fn node(kind: &str, field: Option<&str>, children: Vec<SyntaxNode>) -> SyntaxNode {
    SyntaxNode {
        kind: kind.to_string(),
        text: String::new(),
        field: field.map(|f| f.to_string()),
        children,
    }
}

#[test]
fn paths_are_relative_with_forward_slashes() {
    assert_eq!(rel("/p", "/p/src/Order.cs"), "src/Order.cs");
    assert_eq!(rel("/p", "/other/x.cs"), "/other/x.cs");
    assert_eq!(ext("/p/A.CS"), "cs");
    assert_eq!(ext("/p/.env"), "");
    assert_eq!(file_name("/p/dir/x.txt"), "x.txt");
}

#[test]
fn csharp_namespace_and_class() {
    let mut p = Project::new("/p", "p");
    let files = vec![file(
        "/p/Order.cs",
        "namespace Shop.Domain;\npublic class Order {\n    public void Pay() {}\n}\n",
    )];
    csharp::collect(&mut p, "/p", &files);
    assert_eq!(p.components.len(), 2);
    assert_eq!(p.components[0].id, "ns:Shop.Domain");
    assert_eq!(p.components[0].kind, ComponentKind::Namespace);
    assert_eq!(p.components[1].id, "cs:Order");
    assert_eq!(p.components[1].kind, ComponentKind::Class);
    assert_eq!(p.components[1].language, Language::CSharp);
    assert_eq!(p.components[1].path, "Order.cs");
    assert_eq!(p.components[1].members, vec!["Pay".to_string()]);
}

#[test]
fn csharp_same_id_is_added_once() {
    let mut p = Project::new("/p", "p");
    let files = vec![
        file("/p/A.cs", "public interface IRepo {}\n"),
        file("/p/B.cs", "public interface IRepo {}\n"),
        file("/p/C.java", "public interface IRepo {}\n"),
    ];
    csharp::collect(&mut p, "/p", &files);
    assert_eq!(p.components.len(), 1);
    assert_eq!(p.components[0].kind, ComponentKind::Interface);
    assert_eq!(p.components[0].path, "A.cs");
}

#[test]
fn java_package_and_class() {
    let mut p = Project::new("/p", "p");
    let files = vec![file(
        "/p/App.java",
        "package com.shop;\npublic class App { public String run() { return \"\"; } }",
    )];
    java::collect(&mut p, "/p", &files);
    let ids: Vec<&str> = p.components.iter().map(|c| c.id.as_str()).collect();
    assert_eq!(ids, vec!["pkg:com.shop", "java:App"]);
    assert_eq!(p.components[0].kind, ComponentKind::Package);
}

#[test]
fn sql_tables_columns_and_keys() {
    let mut p = Project::new("/p", "p");
    let files = vec![file(
        "/p/schema.sql",
        "CREATE TABLE sales.orders (\n  id INTEGER PRIMARY KEY,\n  customer_id INTEGER NOT NULL REFERENCES customers(id),\n  total NUMBER(10,2)\n);",
    )];
    database::collect(&mut p, "/p", &files);
    assert_eq!(p.tables.len(), 1);
    let t = &p.tables[0];
    assert_eq!(t.id, "table:orders");
    assert_eq!(t.schema.as_deref(), Some("sales"));
    let cols: Vec<(&str, &str, bool, bool)> = t
        .columns
        .iter()
        .map(|c| (c.name.as_str(), c.data_type.as_str(), c.nullable, c.primary_key))
        .collect();
    assert_eq!(
        cols,
        vec![
            ("id", "INTEGER", true, true),
            ("customer_id", "INTEGER", false, false),
            ("total", "NUMBER(10,2)", true, false),
        ]
    );
    assert_eq!(t.foreign_keys.len(), 1);
    assert_eq!(t.foreign_keys[0].column, "customer_id");
    assert_eq!(t.foreign_keys[0].references_table, "customers");
    assert_eq!(t.foreign_keys[0].references_column, "id");
}

#[test]
fn sql_table_level_foreign_key() {
    let mut p = Project::new("/p", "p");
    let files = vec![file(
        "/p/s.sql",
        "create table items (id int, order_id int, FOREIGN KEY (order_id) REFERENCES public.orders(id));",
    )];
    database::collect(&mut p, "/p", &files);
    let t = &p.tables[0];
    assert_eq!(t.columns.len(), 2);
    assert_eq!(t.foreign_keys[0].references_table, "orders");
}

#[test]
fn dependencies_of_the_three_ecosystems() {
    let mut p = Project::new("/p", "p");
    let mut pkg = file("/p/web/package.json", "{}");
    pkg.json = Some(map(vec![
        ("dependencies", map(vec![("svelte", t("^5"))])),
        ("devDependencies", map(vec![("vite", Node::Number("5".to_string()))])),
    ]));
    let files = vec![
        file("/p/App.csproj", "<PackageReference Include=\"Newtonsoft.Json\" Version=\"13.0.1\" />\n<PackageReference Include=\"Serilog\" Version=\"\" />"),
        file("/p/pom.xml", "<dependency>\n <groupId> org.x </groupId>\n <artifactId>lib</artifactId>\n <version>1.0</version>\n</dependency>"),
        pkg,
    ];
    deps::collect(&mut p, "/p", &files);
    let got: Vec<(&str, Option<&str>, &str, &str)> = p
        .dependencies
        .iter()
        .map(|d| (d.name.as_str(), d.version.as_deref(), d.ecosystem.as_str(), d.declared_in.as_str()))
        .collect();
    assert_eq!(
        got,
        vec![
            ("Newtonsoft.Json", Some("13.0.1"), "NuGet", "App.csproj"),
            ("Serilog", None, "NuGet", "App.csproj"),
            ("org.x:lib", Some("1.0"), "Maven", "pom.xml"),
            ("svelte", Some("^5"), "npm", "web/package.json"),
            ("vite", None, "npm", "web/package.json"),
        ]
    );
}

#[test]
fn configuration_files_with_their_keys() {
    let mut p = Project::new("/p", "p");
    let mut app = file("/p/appsettings.json", "{}");
    app.json = Some(map(vec![("A", t("1")), ("B", t("2")), ("C", t("3"))]));
    let mut unreadable = file("/p/.env.local", "");
    unreadable.text = None;
    let files = vec![
        file("/p/.env", "A=1\n# commento\nB=2\n\n   \nnot a key\n"),
        app,
        unreadable,
        file("/p/readme.md", "A=1"),
    ];
    config::collect(&mut p, "/p", &files);
    let got: Vec<(&str, &str)> = p.components.iter().map(|c| (c.id.as_str(), c.name.as_str())).collect();
    assert_eq!(
        got,
        vec![
            ("config:.env", ".env (2 chiavi)"),
            ("config:appsettings.json", "appsettings.json (3 chiavi)"),
            ("config:.env.local", ".env.local (0 chiavi)"),
        ]
    );
    assert_eq!(p.components[0].kind, ComponentKind::Module);
}

#[test]
fn openapi_endpoints() {
    let mut p = Project::new("/p", "p");
    let mut spec = file("/p/api.yaml", "openapi: 3.0.0");
    spec.json = Some(map(vec![
        ("openapi", t("3.0.0")),
        (
            "paths",
            map(vec![(
                "/orders",
                map(vec![
                    ("get", map(vec![("operationId", t("listOrders"))])),
                    ("parameters", Node::List(vec![])),
                    ("Post", map(vec![("summary", t("Crea"))])),
                ]),
            )]),
        ),
    ]));
    let mut not_spec = file("/p/other.yaml", "paths: {}");
    not_spec.json = Some(map(vec![("paths", map(vec![("/x", map(vec![("get", map(vec![]))]))]))]));
    openapi::collect(&mut p, "/p", &vec![spec, not_spec]);
    assert_eq!(p.endpoints.len(), 2);
    assert_eq!(p.endpoints[0].id, "ep:GET /orders");
    assert_eq!(p.endpoints[0].operation_id.as_deref(), Some("listOrders"));
    assert_eq!(p.endpoints[0].source, "api.yaml");
    assert_eq!(p.endpoints[1].method, "POST");
    assert_eq!(p.endpoints[1].summary.as_deref(), Some("Crea"));
}

#[test]
fn compose_services() {
    let mut p = Project::new("/p", "p");
    let mut f = file("/p/docker-compose.yml", "services: {}");
    f.yaml = Some(map(vec![(
        "services",
        map(vec![
            (
                "web",
                map(vec![
                    ("image", t("nginx")),
                    ("ports", Node::List(vec![t("80:80"), Node::Number("8080".to_string()), Node::Bool(true)])),
                    ("depends_on", Node::List(vec![t("db")])),
                ]),
            ),
            ("db", map(vec![("image", t("postgres")), ("depends_on", map(vec![("cache", map(vec![]))]))])),
        ]),
    )]));
    docker_compose::collect(&mut p, "/p", &vec![f]);
    assert_eq!(p.services.len(), 2);
    let web = &p.services[0];
    assert_eq!(web.id, "service:web");
    assert_eq!(web.image.as_deref(), Some("nginx"));
    assert_eq!(web.ports, vec!["80:80".to_string(), "8080".to_string()]);
    assert_eq!(web.depends_on, vec!["db".to_string()]);
    assert_eq!(web.source, "docker-compose:docker-compose.yml");
    assert_eq!(p.services[1].depends_on, vec!["cache".to_string()]);
}

#[test]
fn kubernetes_units_of_every_document() {
    let mut p = Project::new("/p", "p");
    let mut f = file("/k8s/deploy.yaml", "kind: Deployment");
    let deploy = map(vec![
        ("apiVersion", t("apps/v1")),
        ("kind", t("Deployment")),
        ("metadata", map(vec![("name", t("api"))])),
        (
            "spec",
            map(vec![(
                "template",
                map(vec![("spec", map(vec![("containers", Node::List(vec![map(vec![("name", t("x"))]), map(vec![("image", t("api:1"))])]))]))]),
            )]),
        ),
    ]);
    let no_api = map(vec![("kind", t("Service")), ("metadata", map(vec![("name", t("api"))]))]);
    f.yaml_docs = vec![Some(deploy), None, Some(no_api)];
    kubernetes::collect(&mut p, "/p", &vec![f]);
    assert_eq!(p.services.len(), 1);
    assert_eq!(p.services[0].id, "k8s:Deployment/api");
    assert_eq!(p.services[0].name, "Deployment/api");
    assert_eq!(p.services[0].image.as_deref(), Some("api:1"));
    assert_eq!(p.services[0].source, "kubernetes:/k8s/deploy.yaml");
}

#[test]
fn statistics_of_files_and_lines() {
    let mut p = Project::new("/p", "p");
    let mut unreadable = file("/p/c.go", "");
    unreadable.text = None;
    let files = vec![
        file("/p/b.md", "z"),
        file("/p/a.cs", "x\ny\n"),
        file("/p/Makefile", "all:"),
        file("/p/d.cs", "one line"),
        unreadable,
    ];
    stats::collect(&mut p, &files);
    assert_eq!(p.stats.files, 5);
    assert_eq!(p.stats.lines_of_code, 3);
    assert_eq!(
        p.stats.by_extension,
        vec![("cs".to_string(), 2), ("go".to_string(), 1), ("md".to_string(), 1)]
    );
}

#[test]
fn git_remote_names_an_anonymous_project() {
    let mut p = Project::new("/p", "progetto");
    git::collect(&mut p, true, Some("https://github.com/acme/shop.git".to_string()));
    assert_eq!(p.name, "shop");
    assert_eq!(p.stats.by_extension, vec![("__git_remote".to_string(), 0)]);
    let mut q = Project::new("/p", "mine");
    git::collect(&mut q, true, Some("git@host:x/y.git.git".to_string()));
    assert_eq!(q.name, "mine");
    let mut r = Project::new("/p", "progetto");
    git::collect(&mut r, false, Some("x/y".to_string()));
    assert_eq!(r.name, "progetto");
    assert!(r.stats.by_extension.is_empty());
    assert_eq!(git::trim_end_matches_str("y.git.git", ".git"), "y");
    assert_eq!(git::git_output(true, "  url \n").as_deref(), Some("url"));
    assert_eq!(git::git_output(false, "url"), None);
}

fn python_class(name: &str, methods: Vec<SyntaxNode>) -> SyntaxNode {
    node(
        "class_definition",
        None,
        vec![leaf("identifier", Some("name"), name), node("block", Some("body"), methods)],
    )
}

fn python_method(name: &str, body: Vec<SyntaxNode>) -> SyntaxNode {
    node(
        "function_definition",
        None,
        vec![leaf("identifier", Some("name"), name), node("block", Some("body"), body)],
    )
}

fn python_call(callee: &str) -> SyntaxNode {
    node(
        "call",
        None,
        vec![
            node(
                "attribute",
                Some("function"),
                vec![leaf("identifier", Some("object"), "self"), leaf("identifier", Some("attribute"), callee)],
            ),
            leaf("argument_list", Some("arguments"), "()"),
        ],
    )
}

#[test]
fn tree_walker_types_methods_and_calls() {
    let tree = node(
        "module",
        None,
        vec![
            python_class("Service", vec![python_method("run", vec![python_call("save"), python_call("run")])]),
            python_class("Repo", vec![python_method("save", vec![])]),
        ],
    );
    let mut f = file("/p/app.py", "class Service: ...");
    f.syntax = Some(tree);
    let mut p = Project::new("/p", "p");
    treesitter::collect(&mut p, "/p", &vec![f], Lang::Python);
    let comps: Vec<(&str, Vec<String>)> = p.components.iter().map(|c| (c.id.as_str(), c.members.clone())).collect();
    assert_eq!(
        comps,
        vec![("py:Service", vec!["run".to_string()]), ("py:Repo", vec!["save".to_string()])]
    );
    assert_eq!(p.relations.len(), 1);
    assert_eq!(p.relations[0].from, "py:Service");
    assert_eq!(p.relations[0].to, "py:Repo");
    assert_eq!(p.relations[0].kind, RelationKind::Calls);
}

#[test]
fn tree_walker_go_package_and_types() {
    let tree = node(
        "source_file",
        None,
        vec![
            node("package_clause", None, vec![leaf("package", None, "package"), leaf("package_identifier", None, "main")]),
            node(
                "type_declaration",
                None,
                vec![node(
                    "type_spec",
                    None,
                    vec![leaf("type_identifier", Some("name"), "Store"), leaf("interface_type", Some("type"), "interface{}")],
                )],
            ),
        ],
    );
    let mut f = file("/p/main.go", "package main");
    f.syntax = Some(tree);
    let mut p = Project::new("/p", "p");
    treesitter::collect(&mut p, "/p", &vec![f], Lang::Go);
    assert_eq!(p.components.len(), 2);
    assert_eq!(p.components[0].id, "pkg:main");
    assert_eq!(p.components[0].kind, ComponentKind::Package);
    assert_eq!(p.components[1].id, "go:Store");
    assert_eq!(p.components[1].kind, ComponentKind::Interface);
    assert!(p.relations.is_empty());
}

#[test]
fn lang_tables() {
    assert_eq!(Lang::TypeScript.file_ext(), "ts");
    assert_eq!(Lang::Java.invocation_kind(), "method_invocation");
    assert_eq!(Lang::CSharp.type_kind("record_declaration"), Some(ComponentKind::Class));
    assert_eq!(Lang::Go.type_kind("type_spec"), None);
    assert!(Lang::Python.is_method("function_definition"));
    assert!(Lang::CSharp.is_container("file_scoped_namespace_declaration"));
    assert!(!Lang::Python.is_container("module"));
    assert_eq!(Lang::Go.model_language(), Language::Go);
}

#[test]
fn sources_parse_into_syntax_trees() {
    let src = "class Service:\n    def run(self):\n        self.save()\n        self.run()\n\nclass Repo:\n    def save(self):\n        pass\n";
    let mut files = vec![file("/p/app.py", src), file("/p/notes.txt", "class X:"), file("/p/main.go", "package main\n")];
    parse_sources(&mut files);
    let tree = files[0].syntax.as_ref().unwrap();
    assert_eq!(tree.kind, "module");
    assert_eq!(tree.text, src);
    assert_eq!(tree.field, None);
    let class = &tree.children[0];
    assert_eq!(class.kind, "class_definition");
    let name = class.children.iter().find(|c| c.field.as_deref() == Some("name")).unwrap();
    assert_eq!(name.text, "Service");
    assert!(files[1].syntax.is_none());
    assert_eq!(files[1].text.as_deref(), Some("class X:"));
    assert_eq!(files[2].syntax.as_ref().unwrap().kind, "source_file");
    let mut p = Project::new("/p", "p");
    treesitter::collect(&mut p, "/p", &files, Lang::Python);
    let ids: Vec<&str> = p.components.iter().map(|c| c.id.as_str()).collect();
    assert_eq!(ids, vec!["py:Service", "py:Repo"]);
    assert_eq!(p.relations.len(), 1);
    assert_eq!(p.relations[0].from, "py:Service");
    assert_eq!(p.relations[0].to, "py:Repo");
    let go = parse_text(Lang::Go, "package shop\n\ntype Order struct{}\n").unwrap();
    assert_eq!(go.kind, "source_file");
    assert_eq!(go.children[0].kind, "package_clause");
}
