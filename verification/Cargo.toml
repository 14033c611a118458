[package]
name = "leptos_store"
version = "0.2.0"
edition = "2021"
publish = false

[dependencies]
base64 = "=0.22.1"
serde = { version = "=1.0.229", features = ["derive"] }
serde_json = "=1.0.154"
tracing = "=0.1.44"
leptos = "=0.8.23"
js-sys = "=0.3.107"
wasm-bindgen = "=0.2.130"
web-sys = { version = "=0.3.107", features = ["Window", "Storage"] }
web-time = "1"
