[package]
name = "playback_engine"
version = "0.1.0"
edition = "2021"
publish = false

[dependencies]
tokio = { version = "*", features = ["rt", "sync", "time", "macros"] }
reqwest = { version = "*", default-features = false }
rodio = "*"
stream-download = "*"
dirs = "*"
open = "*"
