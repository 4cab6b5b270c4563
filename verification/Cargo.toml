[package]
name = "airtable_cli"
version = "0.1.0"
edition = "2021"
publish = false

[dependencies]
serde_json = "*"
serde = { version = "*", features = ["derive"] }
clap = "*"
config = { version = "*", default-features = false, features = ["toml", "json"] }
reqwest = { version = "*", default-features = false, features = ["json"] }
rustyline = "*"
tokio = { version = "*", features = ["rt-multi-thread", "macros"] }
