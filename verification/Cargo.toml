[package]
name = "tinydump"
version = "0.1.0"
edition = "2021"
publish = false

[dependencies]
anyhow = "1"
byteorder = "1"
clap = { version = "4", features = ["derive"] }
goblin = "*"
nix = { version = "*", features = ["signal", "process"] }
proc-maps = "*"
regex = "1"
