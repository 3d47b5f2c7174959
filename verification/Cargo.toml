[package]
name = "tui_gpu"
version = "0.1.0"
edition = "2021"
publish = false

[dependencies]
anyhow = "=1.0.104"
bytemuck = { version = "=1.25.2", features = ["extern_crate_alloc"] }
hex = "=0.4.3"
sha2 = "=0.10.9"
font8x8 = "=0.3.1"
image = { version = "=0.24.9", default-features = false, features = ["png", "jpeg"] }
memmap2 = "=0.9.12"
clap = { version = "=4.6.7", features = ["derive"] }
serde = { version = "=1.0.229", features = ["derive"] }
serde_json = "=1.0.154"
serde_yaml = "=0.9.34"
walkdir = "=2.5.0"
chrono = { version = "=0.4.45", features = ["serde"] }
crossterm = "=0.27.0"
nix = { version = "=0.28.0", features = ["term", "process", "signal", "fs"] }
libc = "=0.2.191"
log = "=0.4.35"
