[package]
name = "model_meter"
version = "0.1.0"
edition = "2021"
publish = false

[dependencies]
chrono = "0.4"
urlencoding = "2"
serde = { version = "1", features = ["derive"] }
serde_json = "1"
reqwest = { version = "0.12", default-features = false, features = ["json", "rustls-tls"] }
tokio = { version = "1", features = ["rt", "macros", "time", "sync"] }
futures = "0.3"
log = "0.4"
tiny_http = "0.12"
winreg = "0.55"
