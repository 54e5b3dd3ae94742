[package]
name = "cloc"
version = "1.0.0"
edition = "2021"
publish = false

[dependencies]
chardet = "0.2"
encoding = "0.2"
rayon = "1"
walkdir = "2"
