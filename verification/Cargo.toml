[package]
name = "emote-psb"
version = "0.1.0"
edition = "2021"
publish = false

[dependencies]
byteorder = "1"
flate2 = "1"
thiserror = "1"
