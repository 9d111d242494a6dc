[package]
name = "raytracer"
version = "0.1.0"
edition = "2021"
publish = false

[dependencies]
auto_ops = "=0.3.0"
console = { version = "=0.16.6", default-features = false, features = ["std"] }
indicatif = { version = "=0.16.2", features = ["rayon"] }
png = "=0.16.8"
rayon = "=1.12.0"
