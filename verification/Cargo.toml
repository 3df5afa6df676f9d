[package]
name = "rebalance"
version = "0.1.0"
edition = "2021"

[dependencies]
rust_decimal = "1"
inquire = "*"
