[package]
name = "simpletcp"
version = "0.1.0"
edition = "2021"
publish = false

[dependencies]
openssl = "0.10"
rand = "0.8"
libc = "0.2"
