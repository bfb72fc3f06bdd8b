[package]
name = "slopefield"
version = "0.1.0"
edition = "2021"
publish = false

[dependencies]
fasteval = "0.2"
ggez = "0.5"
