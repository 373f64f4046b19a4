[package]
name = "cleaner"
version = "0.1.0"
edition = "2021"
publish = false

[dependencies]
unicode-normalization = "0.1"
tokio = { version = "1", default-features = false, features = ["sync"] }
plist = { version = "1", default-features = false }
walkdir = "2"
rayon = "1"
anyhow = "1"
libc = "0.2"
