[package]
name = "aurelius"
version = "0.1.0"
edition = "2021"
publish = false

[dependencies]
crossbeam = "*"
hoedown = "*"
log = "*"
nickel = "*"
porthole = "*"
url = "*"
uuid = { version = "*", features = ["v4"] }
websocket = { version = "*", default-features = false, features = ["sync"] }
