[package]
name = "musiclang"
version = "0.1.0"
edition = "2021"
publish = false

[dependencies]
midly = "0.5"
clap = { version = "4", features = ["derive"] }
lsp-server = "0.7"
lsp-types = "0.97"
serde_json = "1"
thiserror = "2"
