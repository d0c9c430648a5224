[package]
name = "ml"
version = "0.1.0"
edition = "2021"
publish = false

[dependencies]
dot = "*"
walkdir = "*"
syntex_syntax = "*"
syntex_errors = "*"
