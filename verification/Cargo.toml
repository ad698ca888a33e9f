[package]
name = "wasmi_benchmarks"
version = "0.1.0"
edition = "2021"
publish = false

[dependencies]
serde_json = "1"
wat = "*"
wasmi = "*"
plotters = { version = "0.3", default-features = false, features = ["svg_backend", "histogram", "full_palette"] }
