[package]
name = "lep"
version = "0.1.0"
edition = "2021"
publish = false

[dependencies]
alacritty_terminal = "0.25"
unicode-width = "0.2"
log = "0.4"
nix = { version = "0.30", features = ["fs", "poll", "process", "signal", "term"] }
