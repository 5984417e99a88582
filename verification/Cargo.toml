[package]
name = "reverse_proxy"
version = "0.1.0"
edition = "2021"
publish = false

[dependencies]
actix-web = "4"
awc = "3"
futures = "0.3"
