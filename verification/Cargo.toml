[package]
name = "chunked_wal"
version = "0.1.0"
edition = "2021"
publish = false

[dependencies]
codeq = "*"
fs2 = "*"
log = "*"

[dev-dependencies]
tempfile = "*"
