[package]
name = "patternscript"
version = "0.1.0"
edition = "2021"
publish = false

[dependencies]
anyhow = "1"
cgmath = "0.18"
ggez = "0.6"
itertools = "0.10"
thiserror = "1"
