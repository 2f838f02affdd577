[package]
name = "portforwarder"
version = "0.1.0"
edition = "2021"
publish = false

[dependencies]
multi-map = "*"
log = "0.4"
getopts = "0.2"
simple-logging = "*"
dirs = "*"
cursive = "*"
wepoll-binding = "*"
winapi = { version = "0.3", features = ["wincon"] }
