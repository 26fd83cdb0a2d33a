[package]
name = "open_entities"
version = "0.1.0"
edition = "2021"
publish = false

[dependencies]
bevy_app = "*"
bevy_ecs = "*"
console_error_panic_hook = "*"
serde = { version = "1", features = ["derive"] }
serde_yaml = "0.9"
wasm-bindgen = "*"
