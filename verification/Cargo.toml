[package]
name = "bare_server"
version = "1.0.0"
edition = "2021"
publish = false

[dependencies]
http = "=0.2.12"
serde_json = "=1.0.154"
serde = { version = "=1.0.229", features = ["derive"] }
reqwest = { version = "=0.11.27", default-features = false, features = ["rustls-tls"] }
salvo = "1"
tokio = { version = "=1.54.1", features = ["macros", "rt-multi-thread"] }
miette = "=5.10.0"
thiserror = "=1.0.69"
once_cell = "=1.21.4"
tracing = "=0.1.44"
tracing-subscriber = "=0.3.23"
