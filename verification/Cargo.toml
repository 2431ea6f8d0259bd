[package]
name = "giopg"
version = "0.1.0"
edition = "2021"
publish = false

[dependencies]
sodiumoxide = "*"
structopt = "0.3"
rpassword = "*"
log = "0.4"
log4rs = "*"
human-panic = "*"
