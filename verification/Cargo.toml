[package]
name = "tiny_fields"
version = "0.1.0"
edition = "2021"
publish = false

[dependencies]
macroquad = "0.4"
strum = "0.26"
strum_macros = "0.26"
