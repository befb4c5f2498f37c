[package]
name = "faber-aeternus"
version = "0.1.0"
edition = "2021"
publish = false

[dependencies]
serde_json = "1"
tree-sitter = "0.24"
tree-sitter-rust = "0.23"
lru = "0.12"
petgraph = { version = "0.6", default-features = false }
anyhow = "1"
async-trait = "0.1"
chrono = { version = "0.4", default-features = false, features = ["clock", "std"] }
clap = { version = "4", features = ["derive"] }
futures = "0.3"
git2 = { version = "0.19", default-features = false }
ignore = "0.4"
iocraft = "*"
reqwest = { version = "0.12", default-features = false, features = ["json", "stream"] }
serde = { version = "1", features = ["derive"] }
tantivy = { version = "0.22", default-features = false }
tokio = { version = "1", features = ["full"] }
toml = "0.8"
tracing = "0.1"
