[package]
name = "static_server"
version = "0.1.0"
edition = "2021"
publish = false

[dependencies]
argparse = "=0.2.2"
tiny_http = "=0.12.0"
