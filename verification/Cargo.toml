[package]
name = "kasino"
version = "0.3.0"
edition = "2021"
publish = false

[dependencies]
crossbeam-utils = "0.8"
portable-atomic = "1"
rand = "*"
