[package]
name = "aetheris-client"
version = "0.1.0"
edition = "2021"
publish = false

[dependencies]
aetheris-protocol = "*"
aetheris-encoder-serde = "*"
rmp-serde = "*"
serde = { version = "*", features = ["derive"] }
serde_json = "*"
twox-hash = "*"
ulid = "*"
getrandom = "0.2"
ruzstd = "*"
wasm-bindgen = "*"
js-sys = "*"
