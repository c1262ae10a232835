[package]
name = "text_rain"
version = "0.1.0"
edition = "2021"
publish = false

[dependencies]
rand = "0.8"
console_engine = "2"
terminal_size = "0.2"
clap = "2"
