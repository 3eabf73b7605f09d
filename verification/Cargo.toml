[package]
name = "linux_input"
version = "0.1.0"
edition = "2021"
publish = false

[dependencies]
color-eyre = "0.6"
tracing = "0.1"
x11rb = "0.13"
