[package]
name = "oneshot"
version = "0.1.0"
edition = "2021"
publish = false

[dev-dependencies]
pollster = "0.4"
