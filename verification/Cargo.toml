[package]
name = "dataprep"
version = "0.1.0"
edition = "2021"
publish = false

[dependencies]
age = "0.9"
anyhow = "1"
clap = { version = "4", features = ["derive"] }
fake-file = "*"
flate2 = "1"
fs_extra = "1"
serde = { version = "1", features = ["derive"] }
serde_json = "1"
strum = { version = "0.24", features = ["derive"] }
tokio = { version = "1", features = ["fs", "io-util", "macros", "rt-multi-thread"] }
tokio-stream = "0.1"
zstd = "0.12"
