[package]
name = "interp"
version = "0.1.0"
edition = "2021"
publish = false

[dependencies]
ariadne = "=0.4.1"
clap = { version = "=4.6.7", features = ["derive"] }
glam = "=0.24.2"
opencascade = "=0.3.0"
proc-macro2 = "=1.0.107"
quote = "=1.0.47"
syn = { version = "=2.0.119", features = ["full"] }
