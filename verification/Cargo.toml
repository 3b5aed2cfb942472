[package]
name = "riscu"
version = "0.1.0"
edition = "2021"
publish = false

[dependencies]
byteorder = "1"
goblin = "*"
thiserror = "1"
