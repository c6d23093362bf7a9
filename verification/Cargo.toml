[package]
name = "icarus"
version = "0.1.0"
edition = "2021"
publish = false

[dependencies]
clap = { version = "4", features = ["derive"] }
colored = "2"
libc = "0.2"
serde = { version = "1", features = ["derive"] }
serde_json = "1"
