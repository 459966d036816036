[package]
name = "sustain_ui"
version = "0.1.0"
edition = "2021"
publish = false

[dependencies]
async-channel = "=2.5.0"
gtk4 = { version = "=0.11.5", features = ["v4_10"] }
rusqlite = { version = "=0.41.1", features = ["bundled"] }
