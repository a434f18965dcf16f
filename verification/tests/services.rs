use archmind_core::assistant::{start, ask, reply_text, request_for, user_prompt, Api, AskEvent, AskStep, HttpOutcome, Provider};
use archmind_core::index::{index_documents, passages, retrieve, search_terms, Passage};
use archmind_core::model::{Column, Component, ComponentKind, Endpoint, Language, Project, ServiceUnit, Table};
use archmind_core::node::Node;
use archmind_core::search::search;
use archmind_core::server::{audit_row, api_key, authenticate, default_md, default_mermaid, document, hash_key, hex, new_key_role, require, Admission, Role, Route};
use archmind_core::docs::{html, markdown, wiki};
use archmind_core::store::{db_path, list_snapshots};
use archmind_core::analyzers::SourceFile;
use archmind_core::Error;

fn t(s: &str) -> Node {
    Node::Text(s.to_string())
}

fn map(entries: Vec<(&str, Node)>) -> Node {
    Node::Mapping(entries.into_iter().map(|(k, v)| (t(k), v)).collect())
}

fn project() -> Project {
    let mut p = Project::new("/p", "shop");
    p.components.push(Component {
        id: "cs:OrderService".into(),
        name: "OrderService".into(),
        kind: ComponentKind::Class,
        language: Language::CSharp,
        path: "src/Order.cs".into(),
        members: vec!["Pay".into()],
    });
    p.components.push(Component {
        id: "cs:Twin".into(),
        name: "Twin".into(),
        kind: ComponentKind::Class,
        language: Language::CSharp,
        path: "src/Order.cs".into(),
        members: vec![],
    });
    p.endpoints.push(Endpoint {
        id: "ep:GET /orders".into(),
        method: "GET".into(),
        path: "/orders".into(),
        operation_id: None,
        summary: Some("Elenco".into()),
        source: "api.yaml".into(),
    });
    p.tables.push(Table {
        id: "table:customers".into(),
        name: "customers".into(),
        schema: None,
        columns: vec![
            Column { name: "id".into(), data_type: "int".into(), nullable: false, primary_key: true },
            Column { name: "order_ref".into(), data_type: "int".into(), nullable: true, primary_key: false },
        ],
        foreign_keys: vec![],
    });
    p.services.push(ServiceUnit {
        id: "service:web".into(),
        name: "web".into(),
        image: Some("nginx".into()),
        ports: vec![],
        depends_on: vec!["db".into(), "cache".into()],
        source: "docker-compose:c.yml".into(),
    });
    p
}

#[test]
fn search_matches_names_paths_and_members() {
    let p = project();
    let hits = search(&p, "  ORDER ");
    let got: Vec<(&str, &str, &str)> = hits.iter().map(|h| (h.kind.as_str(), h.label.as_str(), h.location.as_str())).collect();
    assert_eq!(
        got,
        vec![
            ("component", "OrderService", "src/Order.cs"),
            ("component", "Twin", "src/Order.cs"),
            ("endpoint", "GET /orders", "api.yaml"),
            ("table", "customers", ""),
        ]
    );
    assert!(search(&p, "   ").is_empty());
    assert_eq!(search(&p, "nginx")[0].label, "web");
    assert_eq!(search(&p, "pay")[0].label, "OrderService");
}

#[test]
fn roles_and_privileges() {
    assert_eq!(Role::parse("editor"), Some(Role::Editor));
    assert_eq!(Role::parse("root"), None);
    assert_eq!(Role::Admin.level(), 3);
    assert_eq!(Role::Viewer.name(), "viewer");
    assert!(require(Role::Admin, Role::Editor).is_ok());
    match require(Role::Viewer, Role::Editor) {
        Err(r) => {
            assert_eq!(r.status, 403);
            assert_eq!(r.message, "privilegi insufficienti");
        },
        Ok(()) => panic!("viewer is not an editor"),
    }
    match new_key_role("boss") {
        Err(r) => assert_eq!(r.status, 400),
        Ok(_) => panic!("unknown role"),
    }
}

#[test]
fn api_keys_hashes_and_gate() {
    assert_eq!(hash_key("abc"), "ba7816bf8f01cfea414140de5dae2223b00361a396177a9cb410ff61f20015ad");
    assert_eq!(hex(&vec![0, 15, 16, 255]), "000f10ff");
    assert_eq!(api_key(Some("k1".into()), Some("Bearer k2".into())).as_deref(), Some("k1"));
    assert_eq!(api_key(None, Some("Bearer k2".into())).as_deref(), Some("k2"));
    assert_eq!(api_key(None, Some("Basic k2".into())), None);
    assert!(matches!(authenticate("/health", None), Admission::Open));
    match authenticate("/projects", Some(("admin".into(), "ops".into()))) {
        Admission::Pass(c) => {
            assert_eq!(c.role, Role::Admin);
            assert_eq!(c.label, "ops");
        },
        _ => panic!("expected a pass"),
    }
    match authenticate("/projects", None) {
        Admission::Refused(r) => {
            assert_eq!(r.status, 401);
            assert_eq!(r.message, "chiave API mancante o non valida");
        },
        _ => panic!("expected a refusal"),
    }
    assert!(matches!(authenticate("/projects", Some(("god".into(), "x".into()))), Admission::Refused(_)));
}

#[test]
fn store_paths_and_snapshot_rows() {
    assert_eq!(db_path("/p"), "/p/.archmind/store.db");
    assert_eq!(db_path("/p/"), "/p/.archmind/store.db");
    assert_eq!(db_path(""), ".archmind/store.db");
    let metas = list_snapshots(vec![(2, 200, "v2".into(), "shop".into()), (1, 100, "".into(), "shop".into())]);
    assert_eq!(metas.len(), 2);
    assert_eq!(metas[0].id, 2);
    assert_eq!(metas[0].label, "v2");
    assert_eq!(metas[1].created_at, 100);
}

#[test]
fn index_documents_and_passages() {
    let p = project();
    let files = vec![SourceFile {
        path: "/p/src/Order.cs".into(),
        text: Some("class OrderService {}".into()),
        json: None,
        yaml: None,
        yaml_docs: vec![],
        syntax: None,
    }];
    let docs = index_documents(&p, &files);
    let got: Vec<(&str, &str, &str, &str)> = docs
        .iter()
        .map(|d| (d.kind.as_str(), d.title.as_str(), d.body.as_str(), d.location.as_str()))
        .collect();
    assert_eq!(
        got,
        vec![
            ("code", "src/Order.cs", "class OrderService {}", "src/Order.cs"),
            ("endpoint", "GET /orders", "Endpoint GET /orders  Elenco", "api.yaml"),
            ("table", "customers", "Tabella customers colonne: id, order_ref", ""),
            ("service", "web", "Servizio web immagine nginx dipende da db, cache", "docker-compose:c.yml"),
        ]
    );
    assert_eq!(search_terms("what's up?").as_deref(), Some("what s up"));
    assert_eq!(search_terms(" :() "), None);
    let ps = passages(&docs, &vec![2, 0]);
    assert_eq!(ps.len(), 2);
    assert_eq!(ps[0].kind, "table");
    assert_eq!(ps[1].snippet, "class OrderService {}");
}

#[test]
fn retrieval_ranks_the_documents_of_the_project() {
    let p = project();
    let files = vec![SourceFile {
        path: "/p/src/Order.cs".into(),
        text: Some("class OrderService {}".into()),
        json: None,
        yaml: None,
        yaml_docs: vec![],
        syntax: None,
    }];
    let ps = retrieve(&p, &files, "which image does nginx use?", 6).ok().unwrap();
    assert_eq!(ps.len(), 1);
    assert_eq!(ps[0].kind, "service");
    assert_eq!(ps[0].title, "web");
    assert_eq!(ps[0].location, "docker-compose:c.yml");
    let ps = retrieve(&p, &files, "OrderService", 6).ok().unwrap();
    assert_eq!(ps.len(), 1);
    assert_eq!(ps[0].kind, "code");
    assert_eq!(ps[0].snippet, "class OrderService {}");
    let ps = retrieve(&p, &files, "customers nginx elenco", 2).ok().unwrap();
    assert_eq!(ps.len(), 2);
    assert!(retrieve(&p, &files, "?! ::", 6).ok().unwrap().is_empty());
    assert!(retrieve(&p, &files, "kubernetes", 6).ok().unwrap().is_empty());
}

fn passage(kind: &str, title: &str, location: &str, snippet: &str) -> Passage {
    Passage { kind: kind.into(), title: title.into(), location: location.into(), snippet: snippet.into() }
}

#[test]
fn prompts_and_requests() {
    let ps = vec![passage("code", "a.cs", "src/a.cs", "class A")];
    assert_eq!(
        user_prompt("shop", &ps, "come?"),
        "Contesto del progetto \"shop\":\n\n[1] (code) src/a.cs\nclass A\n\n\n---\nDomanda: come?"
    );
    assert_eq!(
        user_prompt("shop", &vec![], "q"),
        "Contesto del progetto \"shop\":\n\n(nessun contesto rilevante trovato nell'indice)\n\n---\nDomanda: q"
    );
    match request_for(&Provider::Claude { api_key: "  ".into(), model: None }, "s", "u") {
        Err(Error::Llm(m)) => assert_eq!(m, "chiave API di Anthropic mancante"),
        _ => panic!("expected an error"),
    }
    match request_for(&Provider::Claude { api_key: "k".into(), model: None }, "s", "u") {
        Err(Error::Llm(m)) => assert_eq!(m, "modello Anthropic non specificato"),
        _ => panic!("expected an error"),
    }
    match request_for(&Provider::Claude { api_key: "k".into(), model: Some("opus".into()) }, "s", "u") {
        Ok(q) => {
            assert_eq!(q.url, "https://api.anthropic.com/v1/messages");
            assert_eq!(q.model, "opus");
            assert_eq!(q.headers[0], ("x-api-key".to_string(), "k".to_string()));
            assert_eq!(q.max_tokens, 4096);
            assert_eq!(q.timeout_secs, 120);
        },
        Err(_) => panic!("expected a request"),
    }
    match request_for(&Provider::Ollama { host: Some("http://h:1//".into()), model: "llama3.1".into() }, "s", "u") {
        Ok(q) => {
            assert_eq!(q.url, "http://h:1/api/chat");
            assert_eq!(q.api, Api::Ollama);
        },
        Err(_) => panic!("expected a request"),
    }
    match request_for(&Provider::Ollama { host: None, model: " ".into() }, "s", "u") {
        Err(Error::Llm(m)) => assert_eq!(m, "modello Ollama non specificato"),
        _ => panic!("expected an error"),
    }
}

#[test]
fn replies_of_the_models() {
    let ok = HttpOutcome::Response {
        status: 200,
        body: Ok(map(vec![(
            "content",
            Node::List(vec![
                map(vec![("type", t("text")), ("text", t("Ciao "))]),
                map(vec![("type", t("tool_use")), ("text", t("x"))]),
                map(vec![("type", t("text")), ("text", t("mondo"))]),
            ]),
        )])),
    };
    assert_eq!(reply_text(Api::Claude, ok).ok().unwrap(), "Ciao mondo");
    let denied = HttpOutcome::Response { status: 401, body: Ok(map(vec![("error", map(vec![("message", t("bad key"))]))])) };
    match reply_text(Api::Claude, denied) {
        Err(Error::Llm(m)) => assert_eq!(m, "Anthropic HTTP 401: bad key"),
        _ => panic!("expected an error"),
    }
    let blank = HttpOutcome::Response { status: 200, body: Ok(map(vec![("message", map(vec![("content", t("  "))]))])) };
    match reply_text(Api::Ollama, blank) {
        Err(Error::Llm(m)) => assert_eq!(m, "Ollama ha restituito una risposta vuota"),
        _ => panic!("expected an error"),
    }
    match reply_text(Api::Ollama, HttpOutcome::Failed("refused".into())) {
        Err(Error::Llm(m)) => assert_eq!(m, "richiesta a Ollama fallita (è in esecuzione?): refused"),
        _ => panic!("expected an error"),
    }
    match reply_text(Api::Ollama, HttpOutcome::Response { status: 500, body: Err("eof".into()) }) {
        Err(Error::Llm(m)) => assert_eq!(m, "risposta di Ollama non valida: eof"),
        _ => panic!("expected an error"),
    }
}

#[test]
fn ask_is_a_two_step_exchange() {
    let p = project();
    let provider = Provider::Ollama { host: None, model: "llama3.1".into() };
    let ps = vec![passage("table", "customers", "", "Tabella customers")];
    match ask(&p, "quali tabelle?", &provider, &ps, AskEvent::Start) {
        AskStep::Send(q) => {
            assert_eq!(q.url, "http://localhost:11434/api/chat");
            assert!(q.system.starts_with("Sei l'assistente tecnico di ArchMind."));
            assert!(q.user.ends_with("Domanda: quali tabelle?"));
        },
        _ => panic!("expected a request"),
    }
    let reply = HttpOutcome::Response { status: 200, body: Ok(map(vec![("message", map(vec![("content", t("La tabella customers [1]"))]))])) };
    match ask(&p, "quali tabelle?", &provider, &ps, AskEvent::Reply(reply)) {
        AskStep::Done(a) => {
            assert_eq!(a.text, "La tabella customers [1]");
            assert_eq!(a.citations.len(), 1);
            assert_eq!(a.citations[0].title, "customers");
            assert_eq!(a.citations[0].kind, "table");
        },
        _ => panic!("expected an answer"),
    }
}

#[test]
fn server_routes_and_document_formats() {
    assert_eq!(Route::CreateKey.min_role(), Role::Admin);
    assert_eq!(Route::CreateProject.min_role(), Role::Admin);
    assert_eq!(Route::AnalyzeProject.min_role(), Role::Editor);
    assert_eq!(Route::GetDoc.min_role(), Role::Viewer);
    assert_eq!(Route::GetDiff.min_role(), Role::Viewer);
    assert!(require(Role::Editor, Route::AnalyzeProject.min_role()).is_ok());
    assert!(require(Role::Viewer, Route::CreateKey.min_role()).is_err());
    let p = project();
    assert_eq!(document(&p, &default_md()), markdown::render(&p));
    assert_eq!(document(&p, "html"), html::render(&p));
    assert_eq!(document(&p, "wiki"), wiki::render(&p));
    assert_eq!(document(&p, "pdf"), markdown::render(&p));
    assert_eq!(default_mermaid(), "mermaid");
}

#[test]
fn retrieval_errors_and_wordless_questions() {
    let p = project();
    assert!(retrieve(&p, &vec![], "?! ::", 0).ok().unwrap().is_empty());
    let provider = Provider::Ollama { host: None, model: "llama3.1".into() };
    let (found, step) = start(&p, "q", &provider, Err(Error::Index("rotto".into())));
    assert!(found.is_empty());
    match step {
        AskStep::Failed(Error::Index(m)) => assert_eq!(m, "rotto"),
        _ => panic!("expected the retrieval error"),
    }
    let (found, step) = start(&p, "q", &provider, Ok(vec![passage("code", "a.cs", "src/a.cs", "class A")]));
    assert_eq!(found.len(), 1);
    match step {
        AskStep::Send(q) => {
            assert_eq!(q.model, "llama3.1");
            assert!(q.user.contains("[1] (code) src/a.cs"));
        },
        _ => panic!("expected a request"),
    }
}

#[test]
fn search_ignores_ascii_case_and_outer_spaces() {
    let p = project();
    let a = search(&p, "ORDERSERVICE");
    let b = search(&p, "  orderService\t");
    assert!(!a.is_empty());
    assert_eq!(a.len(), b.len());
    for (x, y) in a.iter().zip(b.iter()) {
        assert_eq!((&x.kind, &x.label, &x.location), (&y.kind, &y.label, &y.location));
    }
}

#[test]
fn one_audit_row_per_admitted_request() {
    let admitted = authenticate("/projects", Some(("editor".to_string(), "ci".to_string())));
    let row = audit_row(&admitted, "POST", "/projects/1/analyze", 200).unwrap();
    assert_eq!((row.actor.as_str(), row.method.as_str(), row.path.as_str(), row.status), ("ci", "POST", "/projects/1/analyze", 200));
    let refused = authenticate("/projects", None);
    assert!(audit_row(&refused, "GET", "/projects", 401).is_none());
    let open = authenticate("/health", None);
    assert!(audit_row(&open, "GET", "/health", 200).is_none());
}
