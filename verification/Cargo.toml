[package]
name = "testchamber"
version = "0.1.0"
edition = "2021"
publish = false

[dependencies]
nix = { version = "*", features = ["ptrace", "process", "signal"] }
libc = "*"
clap = { version = "*", features = ["derive"] }
serde_json = "*"
owo-colors = "*"
