[package]
name = "sptcloud"
version = "0.1.0"
edition = "2021"
publish = false

[dependencies]
ansi_term = "0.12"
log = "0.4"
tempfile = "3"
uuid = { version = "0.8", features = ["v4"] }
walkdir = "2"
zip = { version = "0.5", default-features = false, features = ["deflate"] }
