[package]
name = "xgpu_common"
version = "0.1.0"
edition = "2021"
publish = false

[dependencies]
crc32fast = "1"
linux-futex = "*"
nix = { version = "*", features = ["mman", "fs", "feature"] }
thiserror = "1"
