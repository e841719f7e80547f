[package]
name = "ktn"
version = "0.1.0"
edition = "2021"
publish = false

[dependencies]
mailparse = "*"
regex = "*"
rand = "0.8"
chrono = "0.4"
tokio = { version = "1", features = ["rt-multi-thread", "net", "io-util", "macros", "signal", "sync"] }
