[package]
name = "tahini"
version = "0.1.0"
edition = "2021"

[dev-dependencies]
chumsky = "0.10"
