[package]
name = "cspace"
version = "0.1.0"
edition = "2021"
publish = false

[dependencies]
rand = "=0.8.8"
nalgebra = { version = "*", default-features = false, features = ["std"] }
