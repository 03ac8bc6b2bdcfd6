[package]
name = "ash"
version = "0.1.0"
edition = "2021"
publish = false

[dependencies]
chrono = "0.4"
configparser = "3"
ctrlc = "3"
curl = "0.4"
nix = { version = "0.27", features = ["mount"] }
partition-identity = "0.3"
proc-mounts = "0.3"
tempfile = "3"
walkdir = "2"
