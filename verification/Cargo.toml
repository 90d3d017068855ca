[package]
name = "llama_engine"
version = "0.1.0"
edition = "2021"
publish = false

[dependencies]
safetensors = "0.4"
serde = { version = "1", features = ["derive"] }
serde_json = "1"
tokenizers = { version = "0.19", default-features = false, features = ["unstable_wasm"] }
rand = "0.8"
