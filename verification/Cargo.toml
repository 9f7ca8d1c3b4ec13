[package]
name = "path_tracer"
version = "0.1.0"
edition = "2021"
publish = false

[dependencies]
core_affinity = "0.8"
image = { version = "0.25", default-features = false, features = ["png"] }
indicatif = "0.17"
nalgebra = "0.33"
rand = "0.8"
rayon = "1"
