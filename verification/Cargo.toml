[package]
name = "cocoon"
version = "0.1.0"
edition = "2021"
publish = false

[dependencies]
libc = "0.2"
nix = { version = "0.29", features = ["fs", "hostname", "mount", "process", "resource", "sched", "signal", "user"] }
seccompiler = "*"
serde_json = "1"
