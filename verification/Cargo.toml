[package]
name = "navfs"
version = "0.1.0"
edition = "2021"

[dependencies]
itertools = "*"
chrono = "*"
users = "*"
crossterm = "*"
ratatui = "*"
rascii_art = "*"
argmap = "*"
indoc = "*"
