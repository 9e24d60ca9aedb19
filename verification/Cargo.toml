[package]
name = "aurora_kvm"
version = "0.1.0"
edition = "2021"
publish = false

[dependencies]
serde = { version = "*", features = ["derive"] }
serde_json = "*"
tokio = { version = "*", features = ["rt-multi-thread", "net", "sync", "time", "io-util", "macros"] }
clap = { version = "*", features = ["derive"] }
dirs = "*"
rdev = "*"
display-info = "*"
hostname = "*"
