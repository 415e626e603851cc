[package]
name = "anamnesis"
version = "0.1.0"
edition = "2021"
publish = false

[dependencies]
sha2 = "0.10"
serde_json = "1"
serde = { version = "1", features = ["derive"] }
leiden-rs = "*"
clap = { version = "4", features = ["derive"] }
anyhow = "1"
dirs = "*"
fs4 = "*"
tiny_http = "*"
tokio = { version = "1", features = ["rt", "rt-multi-thread", "net", "io-util", "io-std", "sync", "time", "macros", "signal"] }
tracing = "0.1"
