[package]
name = "hvcore"
version = "0.1.0"
edition = "2021"
publish = false

[dependencies]
spin = "*"
aarch64-cpu = "*"
tock-registers = "*"
