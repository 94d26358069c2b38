[package]
name = "zlaunch"
version = "0.1.0"
edition = "2021"
publish = false

[dependencies]
fuzzy-matcher = "*"
urlencoding = "*"
dirs = "*"
freedesktop-icons = "*"
lazy_static = "*"
