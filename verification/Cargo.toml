[package]
name = "dreamhost_ddns"
version = "0.1.0"
edition = "2021"
publish = false

[dependencies]
clap = { version = "*", features = ["derive"] }
curl = "*"
libc = "*"
log = "*"
serde_json = "*"
syslog = "*"
trust-dns-resolver = "*"
