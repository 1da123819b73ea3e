[package]
name = "larql-compute"
version = "0.1.0"
edition = "2021"
publish = false

[dependencies]
cudarc = { version = "0.19", default-features = false, features = ["std", "driver", "nvrtc", "cublas", "f16", "dynamic-loading", "cuda-12080"] }
half = "2"
ndarray = "0.16"
