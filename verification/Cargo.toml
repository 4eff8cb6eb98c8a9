[package]
name = "nanpa"
version = "0.1.0"
edition = "2021"
publish = false

[dependencies]
anyhow = "1"
chrono = "0.4"
clap = { version = "4", features = ["derive"] }
colored = "*"
glob = "0.3"
kdl = "4"
rand = "*"
semver = "1"
serde_json = "1"
toml_edit = "*"
