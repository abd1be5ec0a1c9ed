[package]
name = "critical_point"
version = "0.1.0"
edition = "2021"
publish = false

[dependencies]
oorandom = "=11.1.5"
glam = "=0.34.2"
libm = "=0.2.16"
approx = "=0.5.1"
serde = { version = "=1.0.229", features = ["derive"] }
serde_json = "1"
