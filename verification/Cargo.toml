[package]
name = "process_calc_core"
version = "0.1.0"
edition = "2021"
publish = false

[dependencies]
serde = { version = "1", features = ["derive"] }
serde_json = "1"
ts-rs = "*"
wasm-bindgen = "0.2"
