[package]
name = "micro_gui"
version = "0.1.0"
edition = "2021"
publish = false

[dependencies]
crossterm = "0.28"
ctrlc = "3"
nix = { version = "0.29", features = ["signal", "process", "user"] }
serde_json = "1"
x11rb = { version = "0.13", features = ["image", "xtest"] }
xkeysym = "0.2"
