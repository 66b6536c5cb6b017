[package]
name = "tmx"
version = "0.3.0"
edition = "2021"
publish = false

[dependencies]
xml-rs = "0.8"
