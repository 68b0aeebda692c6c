[package]
name = "conspiracy"
version = "0.1.0"
edition = "2021"
publish = false

[dependencies]
convert_case = "*"
proc-macro2 = "*"
quote = "*"
syn = { version = "*", features = ["full"] }
thiserror = "*"
