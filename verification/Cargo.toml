[package]
name = "cosmic_edit"
version = "0.1.0"
edition = "2021"
publish = false

[dependencies]
cosmic-text = "0.8"
image = "*"
sys-locale = "*"
