[package]
name = "markpad"
version = "0.1.0"
edition = "2021"
publish = false

[dependencies]
tree-sitter = "*"
tree-sitter-highlight = "*"
tree-sitter-rust = "*"
tree-sitter-javascript = "*"
tree-sitter-python = "*"
tree-sitter-typescript = "*"
tree-sitter-go = "*"
tree-sitter-c = "*"
tree-sitter-cpp = "*"
tree-sitter-java = "*"
tree-sitter-json = "*"
tree-sitter-html = "*"
tree-sitter-css = "*"
tree-sitter-bash = "*"
comrak = "*"
regex = "*"
