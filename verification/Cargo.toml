[package]
name = "fofdata"
version = "0.1.0"
edition = "2021"
publish = false

[dependencies]
encoding = "*"
directories = "*"
walkdir = "*"
regex = "*"
lazy_static = "*"
log = "*"
multimap = "*"
