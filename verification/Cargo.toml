[package]
name = "lau_quantum_topology"
version = "0.1.0"
edition = "2021"
publish = false

[dependencies]
nalgebra = { version = "=0.35.0", features = ["serde-serialize"] }
serde = { version = "=1.0.229", features = ["derive"] }
