[package]
name = "md2jsx"
version = "0.1.0"
edition = "2021"
publish = false

[dependencies]
pulldown-cmark = "*"
serde = { version = "*", features = ["derive"] }
serde_json = "*"
jni = "*"
wasm-bindgen = "*"
serde-wasm-bindgen = "*"
