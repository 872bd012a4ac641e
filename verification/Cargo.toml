[package]
name = "pvf_prepare_worker"
version = "0.1.0"
edition = "2021"
publish = false

[dependencies]
libc = "0.2"
nix = { version = "0.29", features = ["process", "resource"] }
os_pipe = "1"

[dev-dependencies]
parity-scale-codec = "3"
