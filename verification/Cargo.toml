[package]
name = "rust_in_action"
version = "0.1.0"
edition = "2021"
publish = false

[dependencies]
byteorder = "1"
chrono = "0.4"
clap = { version = "4", features = ["derive"] }
libc = "0.2"
num = "0.4"
rand = "0.8"
regex = "1"
smoltcp = "0.11"
trust-dns-client = { version = "0.23", default-features = false }
url = "2"
