[package]
name = "hero_init"
version = "0.1.0"
edition = "2021"
publish = false

[dependencies]
anyhow = "1"
libc = "0.2"
log = "0.4"
nix = { version = "0.29", features = ["user", "fs"] }
serde = { version = "1", features = ["derive"] }
serde_yaml = "0.9"
simplelog = "0.12"

[dev-dependencies]
tempfile = "3"
