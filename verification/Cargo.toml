[package]
name = "w25q"
version = "0.3.0"
edition = "2021"
publish = false

[dependencies]
embedded-hal = "1.0"
