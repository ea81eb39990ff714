[package]
name = "music_manager"
version = "0.1.0"
edition = "2021"
publish = false

[dependencies]
rusqlite = { version = "*", features = ["bundled"] }
id3 = "*"
chrono = "*"
dirs = "*"
walkdir = "*"
