[package]
name = "trainingsample"
version = "0.1.0"
edition = "2021"
publish = false

[dependencies]
anyhow = "1"
image = { version = "0.25", default-features = false }
ndarray = "0.16"
num_cpus = "1"
numpy = "0.22"
pyo3 = "0.22"
rand = "0.8"
rayon = "1"
wide = "0.7"
