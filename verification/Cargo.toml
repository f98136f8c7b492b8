[package]
name = "wlclient"
version = "0.1.0"
edition = "2021"
publish = false

[dependencies]
memfd = "*"
memmap2 = "*"
nix = { version = "*", features = ["socket", "uio"] }
png = "*"
