[package]
name = "template_tool"
version = "0.1.0"
edition = "2021"
publish = false

[dependencies]
clap = { version = "4", features = ["cargo"] }
ftail = "*"
log = "0.4"
