[package]
name = "goliard"
version = "0.1.0"
edition = "2021"
publish = false

[dependencies]
smeagol = "*"
braille = "*"
cursive = "*"
clap = "2"
failure = "*"
term_size = "*"
