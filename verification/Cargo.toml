[package]
name = "step_geometry"
version = "0.1.0"
edition = "2021"
publish = false

[dependencies]
truck-geometry = "*"
truck-polymesh = "*"
serde = { version = "*", features = ["derive"] }
