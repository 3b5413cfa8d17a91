[package]
name = "reveal_core"
version = "0.1.0"
edition = "2021"
publish = false

[dependencies]
rand = "=0.10.3"
chacha20 = { version = "=0.10.2", default-features = false, features = ["rng"] }
delaunator = "=1.1.0"
base64 = "=0.23.1"
kamadak-exif = "=0.6.1"
chrono = "=0.4.45"
