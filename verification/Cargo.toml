[package]
name = "mailflow"
version = "0.1.0"
edition = "2021"
publish = false

[dependencies]
url = "2"
anyhow = "1"
atty = "0.2"
console = "0.15"
dialoguer = "0.11"
shellexpand-utils = "0.2"
toml = "0.8"
toml_edit = "0.22"
serde = { version = "1", features = ["derive"] }
tokio = { version = "1", features = ["rt-multi-thread", "macros"] }
notify-rust = "4"
