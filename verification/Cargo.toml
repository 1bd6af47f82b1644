[package]
name = "code_generator"
version = "0.1.0"
edition = "2021"

[dependencies]
Inflector = { version = "0.11", default-features = false }
log = "0.4"
roxmltree = "0.14"
