[package]
name = "okr_tracker"
version = "0.1.0"
edition = "2021"
publish = false

[dependencies]
base64 = "=0.22.1"
ciborium = "=0.2.2"
getrandom = "=0.2.17"
gloo-net = { version = "*", default-features = false, features = ["http", "json"] }
js-sys = "=0.3.107"
p256 = { version = "=0.13.2", features = ["ecdsa"] }
pulldown-cmark = { version = "=0.12.2", default-features = false, features = ["html"] }
serde = { version = "=1.0.229", features = ["derive"] }
serde_json = "=1.0.154"
sha2 = "=0.10.9"
subtle = "=2.6.1"
thiserror = "=2.0.21"
url = "=2.5.8"
uuid = { version = "=1.29.0", features = ["v4"] }
wasm-bindgen = "=0.2.130"
wasm-bindgen-futures = "=0.4.80"
worker = "=0.8.7"
