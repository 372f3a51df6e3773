[package]
name = "reverse_ad"
version = "0.1.0"
edition = "2021"
publish = false

[dependencies]
peroxide = "=0.33.5"
