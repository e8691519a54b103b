[package]
name = "constensor_core"
version = "0.1.0"
edition = "2021"
publish = false

[dependencies]
rayon = "=1.12.0"
cudarc = { version = "=0.19.10", default-features = false, features = ["cuda-12050", "dynamic-loading", "driver", "nvrtc"] }
dirs = "=7.0.0"
thiserror = "=2.0.21"
