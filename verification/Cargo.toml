[package]
name = "fmi_rs"
version = "0.1.0"
edition = "2021"
publish = false

[dependencies]
roxmltree = "=0.21.2"
colored = "=3.1.1"
zip = "=9.2.2"
tempfile = "=3.27.0"
approx = "=0.5.1"
csv = "1"
