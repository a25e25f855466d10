[package]
name = "velvet"
version = "0.1.0"
edition = "2021"
publish = false

[dependencies]
anyhow = "1"
async-std = "1"
chrono = { version = "0.4", default-features = false, features = ["clock", "std"] }
hex = "0.4"
home = "0.5"
reqwest = { version = "0.12", default-features = false, features = ["json", "rustls-tls"] }
rfd = { version = "0.15", default-features = false, features = ["tokio", "xdg-portal"] }
serde = { version = "1", features = ["derive"] }
serde_json = "1"
sha1 = "0.10"
tokio = { version = "1", features = ["fs", "io-util", "rt", "macros"] }
