[package]
name = "rush"
version = "0.1.0"
edition = "2021"
publish = false

[dependencies]
nix = { version = "*", features = ["signal", "process", "term"] }
clap = "*"
dirs = "*"
rustyline = "*"
