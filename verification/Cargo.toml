[package]
name = "sigma-rs"
version = "0.1.0"
edition = "2021"
publish = false

[dependencies]
glob = "=0.3.4"
regex = "=1.13.1"
num_cpus = "=1.17.0"
serde = { version = "=1.0.229", features = ["derive"] }
serde_json = "=1.0.154"
serde_yaml = "=0.9.34"
aho-corasick = "=1.1.5"
chrono = "=0.4.45"
uuid = { version = "=1.29.0", features = ["v4"] }
arrow-array = "*"
arrow-schema = "*"
arrow-json = "*"
arrow-select = "*"
