[package]
name = "payflow_forecast"
version = "0.1.0"
edition = "2021"
publish = false

[dependencies]
leptos = { version = "*", features = ["csr"] }
serde = { version = "1", features = ["derive"] }
serde_json = "1"
js-sys = "*"
wasm-bindgen = "*"
web-sys = { version = "*", features = ["Window", "Document", "Storage", "Navigator"] }
gloo-net = { version = "*", features = ["http"] }
