[package]
name = "wcgw"
version = "0.1.0"
edition = "2021"
publish = false

[dependencies]
clap = "4"
colored = "2"
rexpect = "0.4"
tiktoken-rs = "*"
vte = "0.13"
