[package]
name = "persistent_ns"
version = "0.1.0"
edition = "2021"
publish = false

[dependencies]
anyhow = "1"
nix = "0.24.2"
slog = "2"

[dev-dependencies]
tempfile = "3"
