[package]
name = "dysonphere"
version = "0.1.0"
edition = "2021"
publish = false

[dependencies]
soundfont = "*"
