[package]
name = "vmod"
version = "0.1.0"
edition = "2021"
publish = false

[dependencies]
goblin = "*"
serde_json = "*"
async-std = "*"
