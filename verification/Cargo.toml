[package]
name = "ir_item"
version = "0.1.0"
edition = "2021"

[dependencies]
nom = "4"
