[package]
name = "zkir_air"
version = "0.1.0"
edition = "2021"
publish = false

[dependencies]
anyhow = "1"
bincode = "1"
p3-air = "*"
p3-baby-bear = "*"
p3-field = "*"
p3-matrix = "*"
serde = { version = "1", features = ["derive"] }
