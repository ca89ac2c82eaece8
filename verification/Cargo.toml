[package]
name = "glif_print"
version = "0.1.0"
edition = "2021"
publish = false

[dependencies]
quick-xml = "*"
norad = "*"
svg = "*"
