[package]
name = "plato"
version = "0.1.0"
edition = "2021"
publish = false

[dependencies]
legion = "0.4"
macroquad = "0.3"
