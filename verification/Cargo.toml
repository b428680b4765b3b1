[package]
name = "ta_stream"
version = "0.1.0"
edition = "2021"
publish = false

[dependencies]
softfloat = "=1.0.0"
pyo3 = "=0.30.1"
numpy = "=0.30.0"
