[package]
name = "jinja_lsp"
version = "0.1.0"
edition = "2021"
publish = false

[dependencies]
tree-sitter = "*"
tree-sitter-jinja2 = "*"
tree-sitter-rust = "*"
tree-sitter-python = "*"
ropey = "*"
tower-lsp = "*"
tokio = { version = "*", features = ["rt-multi-thread", "macros", "io-std", "sync", "time"] }
serde = { version = "*", features = ["derive"] }
serde_json = "*"
toml = "*"
clap = { version = "*", features = ["derive"] }
dashmap = "*"
anyhow = "*"
env_logger = "*"
walkdir = "*"
