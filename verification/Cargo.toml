[package]
name = "koto_learning"
version = "0.1.0"
edition = "2021"
publish = false

[dependencies]
koto = "*"
serde_json = "*"
serde_yaml = "*"
uuid = { version = "*", features = ["v4"] }
libloading = "*"
notify = "*"

[dev-dependencies]
tempfile = "*"
