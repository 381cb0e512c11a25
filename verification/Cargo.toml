[package]
name = "lanzaboote"
version = "0.1.0"
edition = "2021"
publish = false

[dependencies]
sha2 = "=0.11.0"
anyhow = "=1.0.104"
log = "=0.4.34"
uefi = { version = "=0.41.0", features = ["alloc"] }
