[package]
name = "dgrlin"
version = "0.1.0"
edition = "2021"
publish = false

[dependencies]
byteorder = "1"
hex = "0.4"
eyre = "0.6"
log = "0.4"
