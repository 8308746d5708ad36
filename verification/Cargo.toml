[package]
name = "rmwrs"
version = "0.1.0"
edition = "2021"
publish = false

[dependencies]
chrono = "0.4"
configster = "*"
home = "0.5"
structopt = "0.3"
