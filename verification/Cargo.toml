[package]
name = "bay0"
version = "0.1.0"
edition = "2021"
publish = false

[dependencies]
nix = "0.26"
libc = "0.2"
