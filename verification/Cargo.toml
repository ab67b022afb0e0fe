[package]
name = "wyst"
version = "0.1.0"
edition = "2021"
publish = false

[dependencies]
lasso = "0.7"
uuid = { version = "1", features = ["v4"] }
blake3 = "1"
num = "0.4"
unicode-xid = "0.2"
crossterm = "0.27"
