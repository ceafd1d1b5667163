[package]
name = "parti_game"
version = "0.1.0"
edition = "2021"
publish = false

[dependencies]
rusqlite = { version = "*", features = ["bundled"] }
cgmath = "*"
coarsetime = "*"
