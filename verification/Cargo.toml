[package]
name = "gateway"
version = "0.1.0"
edition = "2021"
publish = false

[dependencies]
prometheus = "*"
pingora = "*"
async-trait = "*"
log = "*"
