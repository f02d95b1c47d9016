[package]
name = "procuracion"
version = "0.1.0"
edition = "2021"
publish = false

[dependencies]
lopdf = "*"
rfd = "*"
calamine = "*"
rust_xlsxwriter = "*"
