[package]
name = "mork_metta"
version = "0.1.0"
edition = "2021"
publish = false

[dependencies]
dashu = "0.4"
rand = "0.8"
rustc-hash = "2"
rayon = "1"
memmap2 = "0.9"
pyo3 = "0.23"
