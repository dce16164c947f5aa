[package]
name = "gm-cli"
version = "0.1.0"
edition = "2021"
publish = false

[dependencies]
chrono = "0.4"
dirs = "5"
execute = "0.2"
log = "0.4"
reqwest = { version = "0.11", features = ["blocking", "json", "multipart"] }
rpassword = "7"
serde = { version = "1", features = ["derive"] }
serde_json = "1"
serde_yaml = "0.9"
simplelog = "0.12"
singlyton = "*"
