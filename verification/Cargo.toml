[package]
name = "crustls"
version = "0.1.0"
edition = "2021"
publish = false

[dependencies]
rustls = "0.19"
webpki = "0.21"
webpki-roots = "0.21"
env_logger = "0.8"
libc = "0.2"
