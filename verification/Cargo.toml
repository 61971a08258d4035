[package]
name = "nvim_vadre"
version = "0.1.0"
edition = "2021"
publish = false

[dependencies]
anyhow = "1"
async-trait = "0.1"
bytes = "1"
chrono = "0.4"
dirs = "5"
dunce = "1"
futures = "0.3"
is_executable = "1"
lazy_static = "1"
nvim-rs = { version = "0.6", features = ["use_tokio"] }
reqwest = { version = "0.11", default-features = false }
serde = { version = "1", features = ["derive"] }
serde_json = "1"
tokio = { version = "1", features = ["full"] }
tokio-tungstenite = "0.20"
tokio-util = { version = "0.7", features = ["codec"] }
tracing = "0.1"
tracing-subscriber = { version = "0.3", features = ["env-filter"] }
which = "5"
zip = { version = "0.6", default-features = false, features = ["deflate"] }
