[package]
name = "libmgen"
version = "0.1.0"
edition = "2021"
publish = false

[dependencies]
bigdecimal = "=0.4.11"
num-bigint = "=0.4.8"

[dev-dependencies]
syn = { version = "=2.0.119", features = ["full"] }
