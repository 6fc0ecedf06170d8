[package]
name = "tydle"
version = "0.1.0"
edition = "2021"
publish = false

[dependencies]
anyhow = "*"
clap = { version = "*", features = ["derive"] }
colored = "*"
fancy-regex = "*"
num_cpus = "*"
reqwest = { version = "*", default-features = false, features = ["rustls-tls", "json"] }
serde_json = "*"
sha1 = "*"
tokio = { version = "*", features = ["rt-multi-thread", "macros", "fs", "io-util", "sync"] }
url = "*"
