[package]
name = "grid_registry"
version = "0.1.0"
edition = "2021"
publish = false

[dependencies]
parity-codec = { version = "3", features = ["derive"] }
serde = "1"
serde_derive = "1"
sr-std = "1"
