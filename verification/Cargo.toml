[package]
name = "pool_setup"
version = "0.1.0"
edition = "2021"
publish = false

[dependencies]
cmd_lib = "1"
dotenv = "0.15"
structopt = "0.3"
