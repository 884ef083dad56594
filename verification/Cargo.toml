[package]
name = "enigma_editor"
version = "0.1.0"
edition = "2021"
publish = false

[dependencies]
egui = "0.26.2"
rfd = "0.14.1"
serde = { version = "1", features = ["derive"] }
serde_json = "1"
