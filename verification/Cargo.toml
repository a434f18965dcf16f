[package]
name = "archmind-core"
version = "0.1.0"
edition = "2021"
publish = false

[dependencies]
regex = "1"
pulldown-cmark = { version = "*", default-features = false, features = ["html"] }
sha2 = "0.10"
serde = { version = "1", features = ["derive"] }
serde_json = "1"
serde_yaml = "0.9"
clap = { version = "4", features = ["derive"] }
ignore = "0.4"
ureq = { version = "3", features = ["json"] }
tantivy = "*"
rusqlite = { version = "*", features = ["bundled"] }
postgres = "*"
genpdf = "*"
tree-sitter = "*"
tree-sitter-c-sharp = "*"
tree-sitter-java = "*"
tree-sitter-typescript = "*"
tree-sitter-python = "*"
tree-sitter-go = "*"
