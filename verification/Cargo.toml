[package]
name = "zellij_keymap"
version = "0.1.0"
edition = "2021"
publish = false

[dependencies]
zellij-tile = "=0.42.2"
zellij-utils = "=0.42.2"
