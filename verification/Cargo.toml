[package]
name = "backdate"
version = "0.1.0"
edition = "2021"
publish = false

[dependencies]
chrono = "0.4"
git2 = "0.18"
rand = "0.8"
