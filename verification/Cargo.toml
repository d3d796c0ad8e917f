[package]
name = "hoarder"
version = "0.1.0"
edition = "2021"
publish = false

[dependencies]
io-uring = "*"
libc = "*"
log = "*"
rustix = { version = "*", features = ["net", "std"] }
thiserror = "*"
zerocopy = { version = "*", features = ["derive"] }
