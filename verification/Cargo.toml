[package]
name = "ortc"
version = "0.1.0"
edition = "2021"
publish = false

[dependencies]
fastrand = "*"
h264-profile-level-id = "*"
serde = { version = "*", features = ["derive"] }
thiserror = "*"
