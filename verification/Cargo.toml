[package]
name = "akey"
version = "0.2.1"
edition = "2021"
publish = false

[dependencies]
json = "=0.12.4"
