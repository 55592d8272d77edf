[package]
name = "db2q"
version = "0.1.0"
edition = "2021"
publish = false

[dependencies]
uuid = { version = "*", features = ["v4"] }
tokio = { version = "*", features = ["rt-multi-thread", "sync", "time", "macros"] }
deadpool = "*"
deadpool-postgres = "*"
tokio-postgres = "*"
futures-util = "*"
tokio-stream = "*"
log = "*"
tonic = "*"
tonic-types = "*"
