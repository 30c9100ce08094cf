[package]
name = "tic_tac_toe"
version = "0.1.0"
edition = "2021"
publish = false

[dependencies]
console = "0.15"
rand = "0.8"
