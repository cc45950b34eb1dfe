[package]
name = "zellij-vertical-tabs"
version = "0.1.0"
edition = "2021"
publish = false

[dependencies]
unicode-width = "*"
chrono = "*"
chrono-tz = "*"
zellij-tile = "*"
