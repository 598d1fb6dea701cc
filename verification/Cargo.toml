[package]
name = "choose_rand"
version = "0.1.0"
edition = "2021"
publish = false

[dependencies]
rand = "0.8"
weighted_rand = "0.4"
eq-float = "*"
