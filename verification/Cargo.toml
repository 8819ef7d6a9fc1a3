[package]
name = "tree_grepper"
version = "0.1.0"
edition = "2021"
publish = false

[dependencies]
tree-sitter = "0.20"
tree-sitter-c = "0.20"
tree-sitter-cpp = "0.20"
tree-sitter-go = "0.20"
tree-sitter-javascript = "0.20"
tree-sitter-python = "0.20"
tree-sitter-rust = "0.20"
tree-sitter-elm = "5"
tree-sitter-md = "0.1"
tree-sitter-lua = "=0.0.19"
clap = "3"
crossbeam = "*"
ignore = "*"
rayon = "*"
bat = { version = "*", default-features = false, features = ["regex-fancy"] }

[dev-dependencies]
serde_json = "1"
