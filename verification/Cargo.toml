[package]
name = "sway_monocle_layout"
version = "0.1.0"
edition = "2021"
publish = false

[dependencies]
libc = "0.2"
serde_json = "1"
tokio = { version = "1", features = ["rt", "net", "io-util", "time", "signal", "macros"] }
