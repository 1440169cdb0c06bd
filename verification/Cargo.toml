[package]
name = "notifs_in"
version = "0.1.0"
edition = "2021"
publish = false

[dependencies]
smallvec = "*"
