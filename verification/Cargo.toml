[package]
name = "cc99"
version = "0.1.0"
edition = "2021"
publish = false

[dependencies]
escape_string = "*"
clap = { version = "3", features = ["derive"] }
serde = { version = "1", features = ["derive"] }
serde_json = "1"
codespan-reporting = "0.11"
anyhow = "1"
thiserror = "1"
wasm-bindgen = "0.2"
inkwell = "*"
