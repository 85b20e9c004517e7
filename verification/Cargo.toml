[package]
name = "ecstable"
version = "0.1.0"
edition = "2021"
publish = false

[dependencies]
crossterm = "*"
csv = "*"
