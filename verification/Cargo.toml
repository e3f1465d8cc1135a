[package]
name = "pr_attribution"
version = "0.1.0"
edition = "2021"
publish = false

[dependencies]
hex = "0.4"
dirs = "*"
log = "0.4"
notify-debouncer-full = "*"
