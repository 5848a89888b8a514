[package]
name = "ricochet"
version = "0.1.0"
edition = "2021"
publish = false

[dependencies]
rand = "=0.7.3"
cgmath = "=0.17.0"
sdl2 = { version = "=0.35.2", features = ["image"] }
json5 = "=0.2.8"
serde = { version = "=1.0.229", features = ["derive"] }
serde_derive = "=1.0.229"
