[package]
name = "aclint"
version = "0.1.0"
edition = "2021"
publish = false

[dependencies]
dtb-walker = "*"
rcore-console = "*"
uart16550 = "*"
