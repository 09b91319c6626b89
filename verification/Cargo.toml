[package]
name = "oxideav_scribe"
version = "0.1.0"
edition = "2021"
publish = false

[dependencies]
intl = "*"
oxideav-core = "*"
oxideav-ttf = "*"
oxideav-otf = "*"
oxideav-png = "*"
oxideav-pixfmt = "*"
