[package]
name = "rt_async"
version = "0.1.0"
edition = "2021"
publish = false

[dependencies]
critical-section = "1"
fugit = "0.3"
log = "0.4"
proc-macro2 = "1"
quote = "1"
syn = { version = "2", features = ["full"] }
