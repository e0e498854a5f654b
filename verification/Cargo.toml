[package]
name = "syrette"
version = "0.5.0"
edition = "2021"
publish = false
