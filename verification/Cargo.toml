[package]
name = "awsp"
version = "0.1.0"
edition = "2021"
publish = false

[dependencies]
dialoguer = "0.8"
dirs = "3"
rusoto_credential = "0.48"
structopt = "0.3"
sysinfo = "0.21"

[dev-dependencies]
regex = "1"
