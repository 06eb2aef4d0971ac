[package]
name = "btrfsd_core"
version = "0.1.0"
edition = "2021"
publish = false

[dependencies]
serde = { version = "*", features = ["derive"] }
uuid = { version = "*", features = ["v4", "serde"] }
anyhow = "*"
