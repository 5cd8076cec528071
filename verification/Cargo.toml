[package]
name = "configuration_schema"
version = "0.1.0"
edition = "2021"
publish = false

[dependencies]
annotate-snippets = "0.6"
linked-hash-map = "0.5"
yaml-rust = "0.4"
