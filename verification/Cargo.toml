[package]
name = "il_vaticano"
version = "0.1.0"
edition = "2021"
publish = false

[dependencies]
pgn-reader = "=0.26.0"
shakmaty = "=0.27.3"
zstd = "=0.13.3"
