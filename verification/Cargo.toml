[package]
name = "media_server"
version = "0.1.0"
edition = "2021"
publish = false

[dependencies]
anyhow = "1"
log = "0.4"
audiopus = "0.3.0-rc.0"
rubato = "0.15"
reqwest = { version = "0.12", default-features = false, features = ["blocking", "multipart", "json", "rustls-tls"] }
serde_json = "1"
tokio = { version = "1", features = ["rt", "net", "io-util", "sync", "macros", "time"] }
async-trait = "0.1"
