[package]
name = "granular_plugin"
version = "0.1.0"
edition = "2021"
publish = false

[dependencies]
rand = "0.8"
hound = "3.5"
fast-math = "0.1"
ndarray = "0.15"
num-traits = "0.2"
