[package]
name = "sdflib"
version = "0.1.0"
edition = "2021"
publish = false

[dependencies]
glam = "*"
image = { version = "*", default-features = false, features = ["png", "rayon"] }
num = "*"
rayon = "*"
