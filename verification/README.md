# archmind-core

ArchMind reads an existing software project (source code, OpenAPI files,
Docker Compose and Kubernetes manifests, SQL DDL, dependency manifests,
configuration files, Git metadata) and rebuilds its architecture as one
model, from which it writes documentation (Markdown, HTML, wiki, PDF),
diagrams (Mermaid, PlantUML, Graphviz), a full-text search and the context
of a question-answering assistant.

The library is written in Verus: every function in `src/` carries a
`requires`/`ensures` contract over a mathematical model of its data, and
Verus proves the code against it.

- `src/analyzers/` — one analyzer per kind of file, the tree-sitter parsing
  and the syntax-tree walker.
- `src/project.rs` — the whole analysis of a folder, the derived relations
  and the cross-layer links.
- `src/docs/`, `src/diagrams/` — the generated documents and diagrams.
- `src/search.rs`, `src/index.rs`, `src/bm25.rs`, `src/assistant.rs` —
  search, retrieval (tantivy) and the exchange with a language model, as a
  state machine.
- `src/evolution.rs`, `src/store.rs`, `src/db.rs`, `src/server.rs` —
  version comparison, snapshots, live database rows, API keys and roles.
- `src/laws.rs` — properties of the library stated across functions.
- `app/main.rs` — the `archmind-cli` command line: it walks the folder,
  reads files, parses JSON and YAML, runs `git` and talks HTTP.
- `tests/` — tests run against the compiled library.
