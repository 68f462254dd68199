[package]
name = "wprs_compositor"
version = "0.1.0"
edition = "2021"
publish = false

[dependencies]
smithay = { version = "*", default-features = false, features = ["wayland_frontend", "xwayland"] }
smithay-client-toolkit = { version = "*", default-features = false }
serde = "1"
serde_derive = "1"
