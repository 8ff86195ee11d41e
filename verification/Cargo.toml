[package]
name = "deepnano2"
version = "0.1.0"
edition = "2021"
publish = false

[dependencies]
kth = "*"
libc = "*"
ndarray = "*"
pyo3 = "*"
