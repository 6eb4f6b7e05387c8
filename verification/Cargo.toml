[package]
name = "derived_records"
version = "0.1.0"
edition = "2021"
publish = false

[dependencies]
anchor-lang = "*"
