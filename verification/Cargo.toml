[package]
name = "maxwell"
version = "0.1.0"
edition = "2021"
publish = false

[dependencies]
ndarray = "*"
fft2d = "*"
num-complex = "*"
serde = { version = "*", features = ["derive"] }
