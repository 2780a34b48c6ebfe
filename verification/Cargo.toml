[package]
name = "fuse"
version = "0.1.0"
edition = "2021"
publish = false

[dependencies]
base64 = "=0.22.1"
chrono = "0.4"
memmap2 = "0.9"
rand = "0.9"
serde = { version = "=1.0.229", features = ["derive"] }
serde_json = "=1.0.154"
sysinfo = "=0.40.1"
uuid = { version = "1", features = ["v4"] }
