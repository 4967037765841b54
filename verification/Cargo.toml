[package]
name = "imaged"
version = "0.1.0"
edition = "2021"
publish = false

[dependencies]
chrono = { version = "=0.4.45", default-features = false, features = ["clock", "std", "serde"] }
local-ip-address = "=0.6.13"
wakey = "=0.4.1"
scuttlecast = "=0.7.0"
serde = { version = "=1.0.229", features = ["derive"] }
serde_json = "=1.0.154"
tokio = { version = "=1.54.1", features = ["full"] }
tokio-util = { version = "=0.7.20", features = ["io", "rt"] }
tokio-stream = "=0.1.19"
futures = "=0.3.34"
bytes = "=1.12.1"
axum = "=0.8.9"
sqlx = { version = "=0.9.0", default-features = false, features = ["sqlite", "runtime-tokio", "chrono", "json", "migrate"] }
tracing = "=0.1.44"
tracing-subscriber = { version = "=0.3.23", features = ["env-filter"] }
async-tftp = "=0.4.2"
futures-lite = "=2.6.1"
clap = { version = "=4.6.7", features = ["derive", "env"] }
socket2 = "=0.6.5"
tower-http = { version = "=0.7.1", features = ["trace"] }
