[package]
name = "embedded_dsp"
version = "0.1.0"
edition = "2021"
publish = false

[dependencies]
micromath = "*"
ordered-float = "*"
