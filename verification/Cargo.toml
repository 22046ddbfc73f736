[package]
name = "light_translator"
version = "0.1.0"
edition = "2021"
publish = false

[dependencies]
base64 = "0.22"
serde = { version = "1", features = ["derive"] }
tempfile = "3"
reqwest = { version = "0.12", default-features = false, features = ["blocking"] }
