[package]
name = "txtframe"
version = "0.1.0"
edition = "2021"
publish = false

[dependencies]
smallstr = "*"
smallvec = "*"
strip-ansi-escapes = "*"
