[package]
name = "ocipfs"
version = "0.1.0"
edition = "2021"
publish = false

[dependencies]
anyhow = "=1.0.104"
count-write = "=0.1.0"
err-derive = "=0.3.1"
generic-array = "=0.14.9"
reqwest = { version = "=0.10.10", features = ["blocking"] }
rocket = { version = "0.5", features = ["json"] }
serde = { version = "=1.0.229", features = ["derive"] }
serde_json = "=1.0.154"
sha2 = "=0.9.9"
