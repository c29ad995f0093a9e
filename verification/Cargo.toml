[package]
name = "quickbench"
version = "0.1.0"
edition = "2021"
publish = false

[dependencies]
named-lock = "=0.4.1"
proc-macro2 = "=1.0.107"
syn = { version = "=2.0.119", features = ["full"] }
