[package]
name = "organize_by_mtime"
version = "1.0.0"
edition = "2021"
publish = false

[dependencies]
glob = "*"
walkdir = "*"
filetime = "*"
