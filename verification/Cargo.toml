[package]
name = "c2rust_core"
version = "0.1.0"
edition = "2021"
publish = false

[dependencies]
dtoa = "0.4"
