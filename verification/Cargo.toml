[package]
name = "crosvm"
version = "0.1.0"
edition = "2021"
publish = false

[dependencies]
libc = "=0.2.191"
proc-macro2 = "=1.0.107"
protobuf = "=2.28.0"
quote = "=1.0.47"
syn = "=2.0.119"
