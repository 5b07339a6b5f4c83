[package]
name = "contextforge"
version = "0.1.0"
edition = "2021"
publish = false

[dependencies]
tree-sitter = "*"
tree-sitter-rust = "*"
tree-sitter-javascript = "*"
tree-sitter-typescript = "*"
tree-sitter-python = "*"
sha2 = "*"
glob = "*"
chrono = "*"
serde_json = "*"
serde = { version = "*", features = ["derive"] }
schemars = "*"
walkdir = "*"
uuid = { version = "*", features = ["v4"] }
anyhow = "*"
thiserror = "*"
tracing = "*"
tracing-subscriber = { version = "*", features = ["env-filter"] }
clap = { version = "*", features = ["derive"] }
tokio = { version = "*", features = ["macros", "rt-multi-thread", "sync"] }
rmcp = { version = "*", features = ["server", "macros", "transport-io"] }
libsql = { version = "*", default-features = false, features = ["core"] }
git2 = { version = "*", default-features = false }
candle-core = "*"
candle-nn = "*"
candle-transformers = "*"
tokenizers = { version = "*", default-features = false, features = ["onig"] }
hf-hub = { version = "*", default-features = false, features = ["ureq"] }

[dev-dependencies]
regex = "*"
