[package]
name = "rim"
version = "0.1.0"
edition = "2021"
publish = false

[dependencies]
lexical-sort = "*"
