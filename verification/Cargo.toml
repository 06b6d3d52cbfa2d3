[package]
name = "component_analysis"
version = "0.1.0"
edition = "2021"
publish = false

[dependencies]
dashmap = "=5.5.3"
ropey = "=1.6.1"
tree-sitter = "=0.20.10"
tree-sitter-html = "=0.20.0"
tree-sitter-typescript = "=0.20.2"
glob = "=0.3.4"
log = "=0.4.34"
env_logger = "=0.10.2"
tokio = { version = "=1.54.1", features = ["rt-multi-thread", "macros", "io-std"] }
tower-lsp = "=0.20.0"
