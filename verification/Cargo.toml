[package]
name = "sv_depgraph"
version = "0.1.0"
edition = "2021"
publish = false

[dependencies]
sv-parser = "*"
serde = { version = "1", features = ["derive"] }
serde_json = "1"
libc = "0.2"
