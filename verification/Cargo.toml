[package]
name = "desktus"
version = "0.1.0"
edition = "2021"
publish = false

[dependencies]
tokio = { version = "1", features = ["rt", "macros", "time", "io-std", "io-util"] }
chrono = "0.4"
sysinfo = "*"

[dev-dependencies]
base64 = "0.13"
bincode = "1"
