[package]
name = "compio_boring"
version = "0.1.0"
edition = "2021"
publish = false

[dependencies]
lru = "*"
brotli = "*"
flate2 = "*"
zstd = "*"
