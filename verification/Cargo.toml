[package]
name = "telnet_core"
version = "0.1.0"
edition = "2021"
publish = false

[dependencies]
bit_field = "=0.10.3"
smoltcp = "=0.14.0"
