[package]
name = "mavlink_dump"
version = "0.1.0"
edition = "2021"
publish = false

[dependencies]
mavlink = "*"
