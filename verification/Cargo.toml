[package]
name = "xash3d-query"
version = "0.1.0"
edition = "2021"
publish = false

[dependencies]
xash3d-protocol = "0.2.0"
serde = { version = "1", features = ["derive"] }
serde_json = "1"
thiserror = "1"
crossterm = "0.27"
libc = "0.2"
