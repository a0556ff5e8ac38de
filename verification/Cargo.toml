[package]
name = "rester"
version = "0.1.0"
edition = "2021"
publish = false

[dependencies]
bytes = "1"
crossterm = "0.23"
jsonxf = "*"
log = "0.4"
reqwest = { version = "0.11", default-features = false }
sanitize-filename = "*"
serde = { version = "1", features = ["derive"] }
serde_json = "1"
simplelog = "0.12"
textwrap = "*"
tokio = { version = "1", features = ["rt-multi-thread", "macros", "sync"] }
tui = "0.18"
