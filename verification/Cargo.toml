[package]
name = "spd3303x_control"
version = "0.1.0"
edition = "2021"
publish = false

[dependencies]
anyhow = "=1.0.104"
tracing = "=0.1.44"
