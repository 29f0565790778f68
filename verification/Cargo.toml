[package]
name = "windows-lsa"
version = "0.2.0"
edition = "2021"
publish = false

[dependencies]
thiserror = "*"
win32-min = { version = "0.1", default-features = false, features = ["lsa-auth"] }
zeroize = { version = "*", features = ["derive"] }
