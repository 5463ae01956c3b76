[package]
name = "qcli"
version = "0.1.0"
edition = "2021"
publish = false

[dependencies]
array_tool = "1"
async-trait = "0.1"
chrono = "0.4"
clap = { version = "4", features = ["derive"] }
env_logger = "0.10"
futures = "0.3"
governor = "0.6"
log = "0.4"
reqwest = { version = "0.11", features = ["json"] }
serde = { version = "1", features = ["derive"] }
serde_json = "1"
serde_yaml = "0.9"
substring = "1"
tokio = { version = "1", features = ["full"] }
