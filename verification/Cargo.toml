[package]
name = "geoarrow"
version = "0.1.0"
edition = "2021"
publish = false

[dependencies]
arrow-array = "=53.4.1"
arrow-buffer = "=53.4.1"
arrow-schema = "=53.4.1"
geo-traits = "=0.2.0"
pyo3 = "=0.22.6"
