[package]
name = "camera_server"
version = "0.1.0"
edition = "2021"
publish = false

[dependencies]
walkdir = "*"
zip = { version = "*", default-features = false, features = ["deflate"] }
uuid = { version = "*", features = ["v4"] }
chrono = "*"
nix = { version = "*", features = ["fs"] }
