[package]
name = "stampname"
version = "0.1.0"
edition = "2021"
publish = false

[dependencies]
chrono = "0.4"
colored = "*"
unicode-normalization = "0.1"
unicode-general-category = "*"
