[package]
name = "series_poll"
version = "0.1.0"
edition = "2021"
publish = false

[dependencies]
console_error_panic_hook = "0.1"
csv = "1"
dirs = "5"
egui = "=0.26.2"
egui_extras = "=0.26.2"
egui_plot = "=0.26.2"
futures = "0.3"
lazy_static = "1"
log = "0.4"
poll-promise = { version = "=0.3.0", features = ["web"] }
reqwest-wasm = { version = "=0.11.16", features = ["json"] }
rocket = "=0.5.2"
serde = { version = "1", features = ["derive"] }
serde_json = "1"
sqlx = { version = "0.7", default-features = false, features = ["runtime-tokio", "sqlite"] }
tokio = { version = "1", features = ["rt", "rt-multi-thread"] }
wasm-bindgen = "0.2"
wasm-bindgen-futures = "0.4"
