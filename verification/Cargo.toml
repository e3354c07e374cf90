[package]
name = "cdp_server"
version = "0.1.0"
edition = "2021"
publish = false

[dependencies]
base64 = "0.22"
crossbeam-channel = "0.5"
euclid = "0.22"
headers = "0.4"
http = "1"
image = { version = "0.25", default-features = false, features = ["png"] }
log = "0.4"
rustc-hash = "2"
serde_json = "1"
sha1 = "0.10"
uuid = { version = "1", features = ["v4"] }
