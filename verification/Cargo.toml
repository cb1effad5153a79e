[package]
name = "in_a_weekend"
version = "0.1.0"
edition = "2021"
publish = false

[dependencies]
rand = "*"
threadpool = "*"
