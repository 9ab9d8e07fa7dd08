[package]
name = "sense_motive"
version = "0.1.0"
edition = "2021"
publish = false

[dependencies]
rand = "0.8"
rustdct = "0.7"
rustfft = "6"
num-complex = "0.4"
