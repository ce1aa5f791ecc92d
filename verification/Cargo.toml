[package]
name = "hostsync"
version = "0.1.0"
edition = "2021"
publish = false

[dependencies]
anyhow = "1"
clap = { version = "4", features = ["derive"] }
hex = "0.4"
russh = { version = "*", default-features = false, features = ["ring", "flate2", "rsa"] }
russh-sftp = "*"
serde = { version = "1", features = ["derive"] }
serde_yaml = "0.9"
sha3 = "*"
tokio = { version = "1", features = ["fs", "io-util", "macros", "rt-multi-thread", "time"] }
