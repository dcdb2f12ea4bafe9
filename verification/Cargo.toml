[package]
name = "deet"
version = "0.1.0"
edition = "2021"
publish = false

[dependencies]
nix = "0.17.0"
rustyline = "6.1.2"
num_cpus = "1.13.0"
