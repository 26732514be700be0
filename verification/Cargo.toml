[package]
name = "gh_flow"
version = "0.1.0"
edition = "2021"
publish = false

[dependencies]
anyhow = "1"
clap = { version = "4", features = ["derive"] }
clap_complete = "4"
colored = "2"
dialoguer = "0.11"
dirs = "5"
serde = { version = "1", features = ["derive"] }
serde_json = "1"
