[package]
name = "javabox"
version = "0.1.0"
edition = "2021"
publish = false

[dependencies]
anyhow = "=1.0.104"
clap = { version = "=4.6.7", features = ["derive"] }
confy = "=2.0.0"
dirs = "=7.0.0"
indicatif = "=0.18.6"
log = "=0.4.34"
pretty_env_logger = "=0.5.0"
rust-crypto = "=0.2.36"
serde = "=1.0.229"
serde_derive = "=1.0.229"
serde_json = "=1.0.151"
serde-xml-rs = "=0.8.2"
symlink = "=0.1.0"
ureq = "=3.4.2"
url = "=2.5.8"
zip-extract = "=0.4.1"
