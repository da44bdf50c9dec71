[package]
name = "flow2flow"
version = "0.1.0"
edition = "2021"
publish = false

[dependencies]
serde = { version = "1", features = ["derive"] }
serde_json = "1"
serde_yaml = "0.9"
semver = "1"
minijinja = "2"
schemars = "0.8"
clap = { version = "4", features = ["derive"] }
anyhow = "1"
once_cell = "1"
thiserror = "*"
greentic-types = "*"
greentic-interfaces-guest = "*"
