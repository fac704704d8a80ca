[package]
name = "wordcomplete"
version = "0.1.0"
edition = "2021"
publish = false

[dependencies]
dirs = "*"
log = "*"
fern = "*"
chrono = "*"
xi-core-lib = "*"
xi-rope = "*"
xi-rpc = "*"
