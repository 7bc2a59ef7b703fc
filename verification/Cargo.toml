[package]
name = "library_mode"
version = "0.1.0"
edition = "2021"
publish = false

[dependencies]
anyhow = "*"
camino = "*"
cargo_metadata = "*"
uniffi_meta = "*"
uniffi_udl = "*"
