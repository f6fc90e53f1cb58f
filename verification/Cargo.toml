[package]
name = "dot_vox"
version = "0.1.0"
edition = "2021"
publish = false

[dependencies]
nom = "7.1"

[dev-dependencies]
avow = "*"
glam = "*"
