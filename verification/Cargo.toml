[package]
name = "lost_kingdom"
version = "0.1.0"
edition = "2021"
publish = false

[dependencies]
wipi = "*"
