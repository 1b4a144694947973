[package]
name = "minelts"
version = "0.1.0"
edition = "2021"
publish = false

[dependencies]
uuid = { version = "=1.29.0", features = ["v3"] }
md-5 = "=0.10.6"
sha1_smol = "=1.0.1"
dirs = "=5.0.1"
serde = { version = "=1.0.229", features = ["derive"] }
serde_json = "=1.0.154"
ureq = "=2.12.1"
zip = { version = "=0.6.6", default-features = false, features = ["deflate"] }
