[package]
name = "rockscached"
version = "0.1.0"
edition = "2021"
publish = false

[dependencies]
rocksdb = "*"
tokio = { version = "*", features = ["full"] }
clap = "*"
log = "*"
log4rs = "*"
bytes = "*"
