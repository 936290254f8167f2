[package]
name = "fuser"
version = "0.18.0"
edition = "2021"
publish = false

[dependencies]
anyhow = "1"
clap = { version = "4", features = ["derive"] }
io-uring = "0.7"
libc = "0.2"
log = "0.4"
nix = { version = "0.30", features = ["event", "feature", "fs", "mman", "mount", "process", "signal", "uio", "user"] }
page_size = "0.6"
parking_lot = "0.12"
smallvec = "1"
tempfile = "3"
tokio = { version = "1", features = ["fs", "macros", "process", "rt-multi-thread", "signal", "time"] }
