[package]
name = "jsmeld"
version = "0.1.0"
edition = "2021"
publish = false

[dependencies]
anyhow = "1"
clap = { version = "4", features = ["derive"] }
pyo3 = "*"
serde = { version = "1", features = ["derive"] }
serde_json = "1"
swc = "*"
swc_atoms = "*"
swc_bundler = "*"
swc_common = "*"
swc_ecma_ast = "*"
swc_ecma_codegen = "*"
swc_ecma_loader = { version = "*", features = ["node", "cache"] }
swc_ecma_parser = "*"
thiserror = "*"
tracing = "0.1"
tracing-subscriber = "0.3"
