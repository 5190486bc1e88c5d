[package]
name = "vrs"
version = "0.1.0"
edition = "2021"
publish = false
