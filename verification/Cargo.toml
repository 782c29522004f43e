[package]
name = "media_controller"
version = "0.1.0"
edition = "2021"
publish = false

[dependencies]
fs2 = "0.4"
