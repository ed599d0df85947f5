[package]
name = "susi"
version = "0.1.0"
edition = "2021"
publish = false

[dependencies]
regex = "=1.13.1"
clap = { version = "=4.6.7", features = ["derive"] }
serde = { version = "=1.0.229", features = ["derive"] }
serde_json = "=1.0.154"
md5 = "=0.7.0"
sha2 = "=0.10.9"
hex = "=0.4.3"
crossbeam = "=0.8.5"
shlex = "=1.3.0"
url = "=2.5.8"
dashmap = "=6.2.1"
base64 = "=0.22.1"
syn = { version = "=3.0.9", features = ["full", "visit"] }
