[package]
name = "kernel_heap"
version = "0.1.0"
edition = "2021"
publish = false

[dependencies]
spin = "=0.9.9"
rlibc = "=1.0.0"
x86_64 = { version = "=0.14.13", default-features = false, features = ["instructions"] }
bootloader = { version = "0.9", features = ["map_physical_memory"] }
