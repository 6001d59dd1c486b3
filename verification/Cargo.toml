[package]
name = "hack_textual"
version = "0.1.0"
edition = "2021"
publish = false

[dependencies]
anyhow = "1"
ascii = "1"
itertools = "0.10"
log = "0.4"
