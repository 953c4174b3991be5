[package]
name = "album_archive"
version = "0.1.0"
edition = "2021"
publish = false

[dependencies]
anyhow = "1"
comfy-table = "7"
log = "0.4"
nu-ansi-term = "0.50"
rusqlite = "*"
