[package]
name = "crab_shell_core"
version = "0.1.0"
edition = "2021"
publish = false

[dependencies]
colored = "2"
rustyline = "9"
whoami = "1"
