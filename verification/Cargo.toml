[package]
name = "serial_can"
version = "0.1.0"
edition = "2021"
publish = false

[dependencies]
embedded-can = "0.4"
nom = "7"
