[package]
name = "lol_scrim_exporter"
version = "0.1.0"
edition = "2021"
publish = false

[dependencies]
serde_json = "1"
serde = { version = "1", features = ["derive"] }
reqwest = { version = "0.12", default-features = false, features = ["json", "rustls-tls"] }
tokio = { version = "1", features = ["time", "rt"] }
diesel = { version = "2", default-features = false, features = ["sqlite"] }
dirs = "*"
env_logger = { version = "*", default-features = false }
log = "0.4"
