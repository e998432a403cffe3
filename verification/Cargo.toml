[package]
name = "grass_crypt"
version = "0.1.0"
edition = "2021"
publish = false

[dependencies]
kuznyechik = "*"
cipher = "*"
pyo3 = "*"
