[package]
name = "pty_sessions"
version = "0.1.0"
edition = "2021"
publish = false

[dependencies]
portable-pty = "*"
parking_lot = "*"
serde = { version = "*", features = ["derive"] }
