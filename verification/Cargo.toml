[package]
name = "keyvis"
version = "0.1.0"
edition = "2021"
publish = false

[dependencies]
libc = "*"
rdev = "*"
raylib = "*"
