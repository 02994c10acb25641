[package]
name = "gqy"
version = "0.1.0"
edition = "2021"
publish = false

[dependencies]
anyhow = "=1.0.104"
base64 = "0.22"
chrono = "=0.4.45"
clap = { version = "4", features = ["derive"] }
directories = "=5.0.1"
json_comments = "0.2"
libc = "=0.2.191"
serde = { version = "=1.0.229", features = ["derive"] }
serde_json = "=1.0.154"
sha2 = "=0.10.9"
tempfile = "=3.27.0"
