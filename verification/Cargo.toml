[package]
name = "trinity"
version = "0.1.0"
edition = "2021"
publish = false

[dependencies]
redb = "=4.3.0"
reqwest = { version = "=0.13.5", default-features = false, features = ["blocking"] }
rand = "=0.10.3"
regex = "=1.13.1"
shlex = "=2.0.1"
serde = { version = "=1.0.229", features = ["derive"] }
serde_json = "*"
toml = "=1.1.7"
dotenvy = "=0.15.7"
directories = "=6.0.0"
notify = "=8.2.0"

[dev-dependencies]
tempfile = "=3.27.0"
