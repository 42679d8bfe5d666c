[package]
name = "control_plane"
version = "0.1.0"
edition = "2021"
publish = false

[dependencies]
anyhow = "=1.0.104"
rand_core = { version = "=0.6.4", features = ["getrandom"] }
regex = "=1.13.1"
serde_json = "=1.0.154"
sha2 = "=0.10.9"
time = { version = "=0.3.55", features = ["serde"] }
uuid = { version = "=1.29.0", features = ["v4", "v7"] }
