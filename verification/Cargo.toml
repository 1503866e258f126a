[package]
name = "rsvg_internals"
version = "0.1.0"
edition = "2021"
publish = false

[dependencies]
cairo-rs = { version = "0.8", features = ["v1_16"] }
libc = "0.2"
markup5ever = "0.10"
