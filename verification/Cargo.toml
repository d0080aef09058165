[package]
name = "fetchy"
version = "0.1.0"
edition = "2021"
publish = false

[dependencies]
pasts = "*"
rustls = { version = "0.23", default-features = false, features = ["std"] }
js-sys = "*"
wasm-bindgen = "*"
wasm-bindgen-futures = "*"
web-sys = { version = "*", features = ["Blob", "Headers", "ReadableStream", "ReadableStreamDefaultReader", "RequestInit", "Response", "Window", "console"] }
