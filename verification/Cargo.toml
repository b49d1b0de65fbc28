[package]
name = "rdfs"
version = "0.1.0"
edition = "2021"
publish = false

[dependencies]
ed25519-dalek = "*"
sysinfo = "*"
serde = { version = "*", features = ["derive"] }
toml = "*"
rand = "*"
raptorq = "*"
