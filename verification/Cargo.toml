[package]
name = "pretty_jinja"
version = "0.1.0"
edition = "2021"
publish = false

[dependencies]
tiny_pretty = "=0.2.1"
rowan = "=0.16.1"
anyhow = "=1.0.104"
dprint-core = { version = "=0.67.4", default-features = false, features = ["wasm"] }
serde = { version = "=1.0.229", features = ["derive"] }
