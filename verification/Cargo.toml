[package]
name = "adaptite"
version = "0.3.0"
edition = "2021"
publish = false

[dependencies]
hashbrown = "*"
runite = "*"
tracing = "*"
