[package]
name = "kemono_tools"
version = "0.1.0"
edition = "2021"
publish = false

[dependencies]
sha2 = "0.10"
urlencoding = "2"
dirs = "5"
reqwest = { version = "0.12", default-features = false, features = ["json", "gzip", "stream", "rustls-tls"] }
serde = { version = "1", features = ["derive"] }
serde_json = "1"
tokio = { version = "1", features = ["full"] }
futures = "0.3"
