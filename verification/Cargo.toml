[package]
name = "xbee_zigbee"
version = "0.1.0"
edition = "2021"
publish = false

[dependencies]
heapless = "0.8"
nb = "1"
embedded-hal = "0.2"
