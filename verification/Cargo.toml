[package]
name = "maios_kernel"
version = "0.1.0"
edition = "2021"
publish = false

[dependencies]
log = "0.4"
rand = "0.8"
rand_chacha = "0.3"
smoltcp = "0.11"
spin = "0.9"
wasi = "0.10"
wasmi = "0.9"
