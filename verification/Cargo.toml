[package]
name = "minuto_compiler"
version = "0.1.0"
edition = "2021"
publish = false

[dependencies]
ariadne = "=0.6.0"
unicode-ident = "=1.0.27"
