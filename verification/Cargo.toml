[package]
name = "vad_profile"
version = "0.1.0"
edition = "2021"
publish = false

[dependencies]
chrono = "0.4"
lazy_static = "1"
regex = "1"
ureq = { version = "2", default-features = false }
