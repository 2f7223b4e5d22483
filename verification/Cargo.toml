[package]
name = "rt_one_weekend"
version = "0.1.0"
edition = "2021"
publish = false

[dependencies]
rand = "*"
rayon = "*"
image = "*"
anyhow = "*"
