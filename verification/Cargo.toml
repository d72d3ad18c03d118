[package]
name = "forth_compiler"
version = "0.1.0"
edition = "2021"
publish = false

[dependencies]
register-interface = "0.1.0"
spin = "0.9"
