[package]
name = "mlua_typegen"
version = "0.1.0"
edition = "2021"
publish = false

[dependencies]
heck = "0.5"
