[package]
name = "freewheeling"
version = "0.1.0"
edition = "2021"
publish = false

[dependencies]
roxmltree = "0.20"
libc = "0.2"
