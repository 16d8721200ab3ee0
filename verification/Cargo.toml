[package]
name = "rmd160"
version = "0.1.0"
edition = "2021"
publish = false

[dependencies]
crypto = { version = "=0.5.1", features = ["digest"] }
ripemd = "=0.1.3"
