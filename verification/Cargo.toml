[package]
name = "gpu_governor"
version = "0.1.0"
edition = "2021"
publish = false

[dependencies]
anyhow = "1"
inotify = { version = "0.10", default-features = false }
libc = "0.2"
log = "0.4"
once_cell = "1"
