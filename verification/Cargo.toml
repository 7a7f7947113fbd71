[package]
name = "change_detection"
version = "0.1.0"
edition = "2021"
publish = false

[dependencies]
path-matchers = "*"
path-slash = "*"
anyhow = "*"
pico-args = "*"
