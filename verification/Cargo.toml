[package]
name = "tea_dyn"
version = "0.1.0"
edition = "2021"
publish = false

[dependencies]
tevec = { version = "=0.5.1", features = ["ndarray"] }
pyo3 = "=0.22.6"
numpy = "=0.22.1"
serde = { version = "=1.0.229", features = ["derive"] }
polars = { version = "0.45", default-features = false }
pyo3-polars = "0.19"
