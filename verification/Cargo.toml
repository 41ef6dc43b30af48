[package]
name = "colab"
version = "0.1.0"
edition = "2021"
publish = false

[dependencies]
tree-sitter = "*"
tree-sitter-go = "*"
tree-sitter-java = "*"
tree-sitter-javascript = "*"
tree-sitter-c = "*"
tree-sitter-cpp = "*"
tree-sitter-c-sharp = "*"
tree-sitter-json = "*"
similar = "*"
globset = "*"
serde_json = "*"
serde = { version = "*", features = ["derive"] }
clap = { version = "*", features = ["derive"] }
ignore = "*"
rayon = "*"
num_cpus = "*"
log = "*"
env_logger = "*"
colored = "*"
chrono = "*"
tokio = { version = "*", features = ["full"] }
tower-lsp = "*"
