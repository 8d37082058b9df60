[package]
name = "verb_engine"
version = "0.1.0"
edition = "2021"
publish = false

[dependencies]
regex = "1"
directories = "*"
crossterm = "*"
minimad = "*"
