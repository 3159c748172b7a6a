[package]
name = "simple-render"
version = "0.1.0"
edition = "2021"
publish = false

[dependencies]
cosmic-text = "*"
smithay-client-toolkit = "*"
xkeysym = "*"
