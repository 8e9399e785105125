[package]
name = "jaws"
version = "0.1.0"
edition = "2021"
publish = false

[dependencies]
age = { version = "=0.11.5", features = ["ssh"] }
chrono = "=0.4.45"
chrono-humanize = "0.2"
clap = { version = "=4.6.7", features = ["derive"] }
dirs = "=7.0.0"
hcl-rs = "=0.20.0"
hex = "=0.4.3"
keyring = "=3.6.3"
regex = "=1.13.1"
rpassword = "=7.5.4"
rusqlite = { version = "=0.41.1", features = ["bundled"] }
serde = { version = "=1.0.229", features = ["derive"] }
serde_json = "=1.0.154"
sha2 = "=0.10.9"
tar = "=0.4.46"
toml = "=1.1.8"
