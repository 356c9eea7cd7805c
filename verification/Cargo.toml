[package]
name = "cjdns_noise"
version = "0.1.0"
edition = "2021"
publish = false

[dependencies]
anyhow = "1"
boringtun = "0.3"
hex = "0.4"
log = "0.4"
parking_lot = "0.12"
sha2 = "0.10"
slog = "2"
