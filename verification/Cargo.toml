[package]
name = "graph_runtime"
version = "0.1.0"
edition = "2021"
publish = false

[dependencies]
glam = "*"
image = { version = "0.25", default-features = false, features = ["png", "jpeg"] }
num_enum = "0.7"
parley = "*"
serde = { version = "1", features = ["derive"] }
