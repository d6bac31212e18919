[package]
name = "depot"
version = "0.1.0"
edition = "2021"
publish = false

[dependencies]
arrow = { version = "*", default-features = false }
arrow-array = "*"
arrow-csv = "*"
bytes = "*"
clap = { version = "*", features = ["derive"] }
parquet = { version = "*", default-features = false, features = ["arrow"] }
rdkafka = "*"
regex = "*"
s2n-quic = "*"
serde = { version = "*", features = ["derive"] }
serde_json = "*"
serde_yaml = "*"
tokio = { version = "*", features = ["full"] }
