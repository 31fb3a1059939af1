[package]
name = "yamete"
version = "0.1.0"
edition = "2021"
publish = false

[dependencies]
clap = { version = "4", features = ["derive"] }
dispatch2 = "0.3"
flate2 = "1"
kira = "0.10"
libc = "0.2"
objc2-core-foundation = "0.3"
objc2-io-kit = "0.3"
rtrb = "0.3"
serde = { version = "1", features = ["derive"] }
serde_json = "1"
thiserror = "2"
tokio = { version = "1", features = ["full"] }
tracing = "0.1"
tracing-subscriber = { version = "0.3", features = ["env-filter"] }
ureq = "3"
