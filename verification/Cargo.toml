[package]
name = "titleformat_rs"
version = "0.1.0"
edition = "2021"
publish = false

[dependencies]
unicode-segmentation = "*"
iso-8601 = "*"
