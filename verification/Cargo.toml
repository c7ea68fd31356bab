[package]
name = "signal_inspector"
version = "0.1.0"
edition = "2021"
publish = false

[dependencies]
rustfft = "*"

[dev-dependencies]
hound = "*"
