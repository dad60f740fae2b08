[package]
name = "bluebus"
version = "0.1.0"
edition = "2021"
publish = false

[dependencies]
dbus = "0.9"
hex = "0.4"
