[package]
name = "razero_compiler"
version = "0.0.0"
edition = "2021"
publish = false

[dependencies]
object = { version = "0.36", features = ["write"] }
