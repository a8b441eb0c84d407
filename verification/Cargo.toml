[package]
name = "riic_fetch"
version = "0.1.0"
edition = "2021"
publish = false

[dependencies]
image = { version = "=0.24.9", features = ["webp-encoder"] }
serde = { version = "=1.0.229", features = ["derive"] }
serde_json = { version = "=1.0.151", features = ["preserve_order"] }
toml = "=0.8.23"
ureq = { version = "=2.12.1", features = ["json"] }
webp = { version = "=0.2.6", default-features = false }
