[package]
name = "fatline_server"
version = "0.1.0"
edition = "2021"
publish = false

[dependencies]
hex = "=0.4.3"
blake3 = "=1.8.7"
ed25519-dalek = "=2.2.0"
fatline-rs = "=0.2.2"
axum = "*"
tokio = { version = "*", features = ["full"] }
crossbeam = "*"
dashmap = "*"
diesel = { version = "*", features = ["postgres", "r2d2"] }
r2d2_postgres = "*"
clap = { version = "*", features = ["derive"] }
serde = { version = "*", features = ["derive"] }
eyre = "*"
dotenvy = "*"
futures-util = "*"
tracing = "*"
tracing-subscriber = { version = "*", features = ["env-filter"] }
thiserror = "*"
chrono = "*"
uuid = "*"
