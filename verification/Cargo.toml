[package]
name = "tunnelhunt"
version = "0.1.0"
edition = "2021"
publish = false

[dependencies]
rfd = { version = "0.15", default-features = false, features = ["xdg-portal", "tokio"] }
serde = { version = "1", features = ["derive"] }
serde_json = "1"
tokio = { version = "1", features = ["sync", "process", "io-util", "time", "rt", "macros"] }
