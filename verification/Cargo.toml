[package]
name = "oqueue"
version = "0.1.0"
edition = "2021"
publish = false

[dependencies]
termcolor = "1"
readonly = "0.2"
