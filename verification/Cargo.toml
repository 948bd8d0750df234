[package]
name = "ssh_tunnel"
version = "0.1.0"
edition = "2021"
publish = false

[dependencies]
regex = "*"
clap = { version = "*", features = ["derive"] }
ctrlc = "*"
dirs-next = "*"
log = "*"
log4rs = "*"
