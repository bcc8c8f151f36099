[package]
name = "skilo"
version = "0.1.0"
edition = "2021"
publish = false

[dependencies]
dirs = "=7.0.0"
git2 = { version = "=0.21.0", features = ["cred"] }
tempfile = "=3.27.0"
serde = { version = "=1.0.229", features = ["derive"] }
toml = "=1.1.7"
