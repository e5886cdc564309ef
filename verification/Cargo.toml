[package]
name = "sysfetch"
version = "0.1.0"
edition = "2021"
publish = false

[dependencies]
colored = "2"
nix = { version = "0.29", features = ["fs"] }
