[package]
name = "git-forge"
version = "0.2.1"
edition = "2021"
publish = false

[dependencies]
git2 = { version = "0.20", default-features = false }
libc = "0.2"
