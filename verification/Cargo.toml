[package]
name = "nvenc_vaapi_driver"
version = "0.1.0"
edition = "2021"
publish = false

[dependencies]
cudarc = { version = "=0.19.10", default-features = false, features = ["std", "driver", "dynamic-loading", "cuda-12080"] }
libc = "=0.2.191"
nvidia-video-codec-sdk = { version = "=0.4.0", features = ["ci-check"] }
parking_lot = "=0.12.5"
slotmap = "=1.1.1"
thiserror = "=2.0.21"
