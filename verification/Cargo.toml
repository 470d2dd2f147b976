[package]
name = "forge"
version = "0.1.0"
edition = "2021"
publish = false

[dependencies]
anyhow = "1"
async-trait = "0.1"
colored = "2"
crossterm = "0.27"
derive_more = { version = "1", features = ["display", "from"] }
ignore = "0.4"
promptuity = "*"
schemars = "0.8"
serde = { version = "1", features = ["derive"] }
serde_json = "1"
strip-ansi-escapes = "0.2"
tempfile = "3"
tokio = { version = "1", features = ["full"] }
tracing = "0.1"
