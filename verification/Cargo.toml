[package]
name = "warikan"
version = "0.1.0"
edition = "2021"
publish = false

[dependencies]
nanoid = "0.4"
chrono = "0.4"
