[package]
name = "unishare"
version = "0.1.0"
edition = "2021"
publish = false

[dependencies]
base64 = "0.13"
serde = { version = "1", features = ["derive"] }
bincode = "1"
sled = "0.34"
tokio = { version = "1", features = ["full"] }
fuser = { version = "0.11", default-features = false }
libc = "0.2"
remoc = { version = "0.10", features = ["full"] }
structopt = "0.3"
anyhow = "1"
tracing = "0.1"
tracing-subscriber = { version = "0.3", features = ["env-filter"] }
futures = "0.3"
async-backtrace = "0.2"
thiserror = "1"
