[package]
name = "oku"
version = "0.1.0"
edition = "2021"
publish = false

[dependencies]
html-escape = "=0.3.0"
url = "=2.5.8"
daggy = { version = "=0.9.0", features = ["stable_dag", "serde-1"] }
bs58 = "=0.5.1"
chrono = "=0.4.45"
uuid = { version = "=1.29.0", features = ["v4", "serde"] }
serde = { version = "=1.0.229", features = ["derive"] }
toml = "=0.8.23"
bincode = "=1.3.3"
directories-next = "*"
