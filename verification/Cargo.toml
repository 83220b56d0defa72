[package]
name = "conrod_layout"
version = "0.1.0"
edition = "2021"
publish = false

[dependencies]
cssparser = "*"
fnv = "1.0.7"
