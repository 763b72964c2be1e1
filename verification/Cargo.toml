[package]
name = "swc_plugin_ng_annotate"
version = "0.1.0"
edition = "2021"
publish = false

[dependencies]
regex = "1"
serde = { version = "1", features = ["derive"] }
serde_json = "1"
swc_core = { version = "*", features = ["ecma_ast", "ecma_visit", "common", "ecma_plugin_transform"] }
