[package]
name = "asset_pipeline"
version = "0.1.0"
edition = "2021"
publish = false

[dependencies]
argh = "=0.1.19"
brotli = { version = "=9.0.0", features = ["portable-float"] }
flate2 = "=1.1.10"
image = { version = "=0.25.10", default-features = false, features = ["avif", "bmp", "jpeg", "png", "webp"] }
rayon = "=1.12.0"
thiserror = "=1.0.69"
walkdir = "=2.5.0"
webp = { version = "=0.3.1", default-features = false }
zstd = "=0.13.3"
