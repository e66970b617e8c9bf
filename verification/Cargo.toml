[package]
name = "valence"
version = "0.1.0"
edition = "2021"
publish = false

[dependencies]
arrayvec = "=0.7.8"
flate2 = "=1.1.10"
aes = "=0.7.5"
cfb8 = "=0.7.1"
uuid = "=1.29.0"
base64 = "=0.13.1"
bytes = "1"
serde = { version = "1", features = ["derive"] }
serde_json = "1"
url = "2"

[dev-dependencies]
rand = "=0.8.8"
