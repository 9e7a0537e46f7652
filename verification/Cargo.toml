[package]
name = "hanzo_sdk"
version = "0.1.0"
edition = "2021"
publish = false

[dependencies]
url = "2"
blake3 = "1"
serde = { version = "1", features = ["derive"] }
serde_json = "1"
tokio = { version = "1", features = ["fs", "rt", "macros"] }
async-trait = "0.1"
walkdir = "2"
reqwest = { version = "0.12", default-features = false }
tree-sitter = "*"
tree-sitter-language = "*"
tree-sitter-rust = "*"
tree-sitter-javascript = "*"
tree-sitter-typescript = "*"
tree-sitter-python = "*"
tree-sitter-go = "*"
tree-sitter-java = "*"
tree-sitter-cpp = "*"
tree-sitter-c = "*"

[dev-dependencies]
regex = "1"
