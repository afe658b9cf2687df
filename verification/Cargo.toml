[package]
name = "botcore"
version = "0.1.0"
edition = "2021"
publish = false

[dependencies]
base64 = "*"
rand = "*"
parse_duration = "*"
dateparser = "*"
chrono = "*"
chrono-tz = "*"
