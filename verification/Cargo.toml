[package]
name = "tokio_lsp"
version = "0.1.0"
edition = "2021"
publish = false

[dependencies]
bytes = "0.4"
futures = "0.1"
languageserver-types = "*"
serde = "1"
serde_derive = "1"
serde_json = "1"
tokio = "0.1"
tokio-core = "0.1"
tokio-io = "0.1"
tokio-jsonrpc = "*"
