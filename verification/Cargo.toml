[package]
name = "debugger_sh"
version = "0.1.0"
edition = "2021"
publish = false

[dependencies]
serde = { version = "1", features = ["derive"] }
serde_json = "1"
regex = "1"
gimli = "*"
wasm-bindgen = "*"
js-sys = "*"
web-sys = { version = "*", features = ["Worker", "MessageEvent", "EventTarget"] }
serde-wasm-bindgen = "*"
anyhow = "1"
