[package]
name = "spectral2d"
version = "0.1.0"
edition = "2021"
publish = false

[dependencies]
ndarray = "0.13"
num-traits = "0.2"
rustdct = "0.5"
rustfft = "4"
