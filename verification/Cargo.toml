[package]
name = "fmtparse"
version = "0.1.0"
edition = "2021"
publish = false

[dependencies]
regex = "*"
regex-syntax = "*"
proc-macro2 = "*"
quote = "*"
syn = { version = "*", features = ["full"] }
