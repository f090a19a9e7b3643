[package]
name = "liboj"
version = "0.1.0"
edition = "2021"
publish = false

[dependencies]
bincode = "1"
lazy_static = "1"
nix = { version = "0.29", features = ["fs", "process", "sched", "signal", "user"] }
serde = { version = "1", features = ["derive"] }
tempfile = "3"
uuid = { version = "1", features = ["v4"] }
