[package]
name = "kp"
version = "0.1.0"
edition = "2021"
publish = false

[dependencies]
hex = "0.4"
num-bigint = { version = "0.4", features = ["rand"] }
rand = "0.8"
