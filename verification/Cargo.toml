[package]
name = "vite_actix"
version = "0.1.0"
edition = "2021"
publish = false

[dependencies]
actix-web = "4"
anyhow = "1"
awc = "3"
futures-util = "0.3"
log = "0.4"
regex = "1"
strip-ansi-escapes = "0.2"
tokio = { version = "1", features = ["rt", "sync"] }
