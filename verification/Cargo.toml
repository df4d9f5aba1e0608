[package]
name = "oxc_allocator"
version = "0.1.0"
edition = "2021"
publish = false

[dependencies]
log = "=0.4.34"
serde_json = "=1.0.154"
tokio = { version = "=1.54.1", default-features = false, features = ["sync"] }
tower-lsp-server = "=0.22.1"
