[package]
name = "ratatui_wasm_backend"
version = "0.1.0"
edition = "2021"
publish = false

[dependencies]
anes = { version = "*", features = ["parser"] }
ratatui = { version = "0.29", default-features = false, features = ["unstable-widget-ref", "macros"] }
textwrap = "0.16"
wasm-bindgen = "0.2"
