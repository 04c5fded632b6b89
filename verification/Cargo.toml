[package]
name = "web_top"
version = "0.1.0"
edition = "2021"
publish = false

[dependencies]
serde = { version = "1", features = ["derive"] }
serde_json = "1"
axum = "0.7"
tokio = { version = "1", features = ["macros", "rt-multi-thread", "net"] }
tower-http = { version = "0.6", features = ["cors", "fs"] }
leptos = { version = "0.7", features = ["csr"] }
wasm-bindgen = "0.2"
wasm-bindgen-futures = "0.4"
js-sys = "0.3"
web-sys = { version = "0.3", features = ["WebSocket", "MessageEvent", "CloseEvent", "Window", "Location", "Request", "RequestInit", "Response", "KeyboardEvent"] }
console_error_panic_hook = "0.1"
core-foundation-sys = "0.8"
io-kit-sys = "0.4"
