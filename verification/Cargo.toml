[package]
name = "music_server"
version = "0.2.0"
edition = "2021"
publish = false

[dependencies]
tokio = { version = "*", features = ["rt-multi-thread", "net", "sync", "io-util", "time", "macros"] }
rusqlite = { version = "*", features = ["bundled"] }
