[package]
name = "composer"
version = "0.1.0"
edition = "2021"
publish = false

[dependencies]
anyhow = "=1.0.104"
bincode = "=1.3.3"
blake2 = "=0.10.6"
ffmpeg-next = "=9.0.0"
hex = "=0.4.3"
js-sys = "=0.3.106"
log = "=0.4.34"
serde = { version = "=1.0.229", features = ["derive"] }
sha256 = { version = "=1.6.0", default-features = false }
sled = "=0.34.7"
sparse-merkle-tree = "0.6"
thiserror = "=1.0.69"
wasm-bindgen = "=0.2.129"
