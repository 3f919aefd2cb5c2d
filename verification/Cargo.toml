[package]
name = "rathole"
version = "0.5.0"
edition = "2021"
publish = false

[dependencies]
anyhow = "1"
async-trait = "0.1"
axum = "0.8"
base64 = "0.13"
clap = { version = "3.2", features = ["derive"] }
fdlimit = "0.2"
lazy_static = "1.4"
pingora = "*"
pingora-proxy = "*"
serde = { version = "1", features = ["derive"] }
serde_json = "1"
snowstorm = "0.4"
tokio = { version = "1", features = ["rt", "macros", "net", "fs", "sync", "time"] }
toml = "0.5"
tower-http = { version = "0.6", features = ["trace"] }
tracing = "0.1"
