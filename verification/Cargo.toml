[package]
name = "possum"
version = "0.1.0"
edition = "2021"
publish = false

[dependencies]
anyhow = "1"
chrono = { version = "0.4", default-features = false }
libc = "0.2"
log = "0.4"
memmap2 = "0.9"
nix = { version = "0.27", features = ["fs"] }
positioned-io = "0.3"
rand = "0.8"
rusqlite = "0.30"
tempfile = "3"
