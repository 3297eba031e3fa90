[package]
name = "diagspan"
version = "0.1.0"
edition = "2021"
publish = false

[dependencies]
ansi_term = "0.12"
atty = "0.2"
unicode-width = "0.1"
