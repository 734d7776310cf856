[package]
name = "edid"
version = "0.3.0"
edition = "2021"
publish = false

[dependencies]
nom = "7"
