[package]
name = "quads_jam_2024"
version = "0.1.0"
edition = "2021"
publish = false

[dependencies]
gamepads = "*"
macroquad = "0.4"
miniquad = "0.4"
quad-storage = "*"
ron = "*"
serde = { version = "1", features = ["derive"] }
