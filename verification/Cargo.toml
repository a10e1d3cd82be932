[package]
name = "blam_tags"
version = "0.1.0"
edition = "2021"
publish = false

[dependencies]
bcdec_rs = "=0.2.1"
