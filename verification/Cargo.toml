[package]
name = "tantivy-eml-dump"
version = "0.1.0"
edition = "2021"
publish = false

[dependencies]
base64 = "=0.22.1"
chrono = "=0.4.45"
clap = { version = "=4.6.7", features = ["derive"] }
console = "=0.15.11"
dialoguer = "=0.11.0"
indicatif = "=0.17.11"
itertools = "=0.14.0"
native_db = "=0.8.2"
native_model = "=0.4.20"
serde = { version = "=1.0.229", features = ["derive"] }
serde_json = "=1.0.154"
tantivy = "=0.24.2"
tokio = { version = "=1.54.1", features = ["fs", "io-util", "macros", "rt"] }
