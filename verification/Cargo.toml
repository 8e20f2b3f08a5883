[package]
name = "lines_are_rusty"
version = "0.1.0"
edition = "2021"
publish = false

[dependencies]
anyhow = "1"
byteorder = "1"
clap = "2.33"
json = "0.12"
lopdf = "*"
maud = "*"
svg = "*"
