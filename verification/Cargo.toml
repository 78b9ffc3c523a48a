[package]
name = "ipelfs"
version = "0.1.0"
edition = "2021"
publish = false

[dependencies]
rand = "0.8"
toml = "0.8"
chrono = "0.4"
serde = { version = "1", features = ["derive"] }
serde_json = "1"
axum = { version = "0.7", features = ["ws"] }
clap = { version = "4", features = ["derive"] }
tokio = { version = "1", features = ["full"] }
tower-http = { version = "0.5", features = ["cors"] }
termcolor = "1"
sys-info = "0.9"
get_if_addrs = "0.5"
once_cell = "1"
lazy_static = "1"
