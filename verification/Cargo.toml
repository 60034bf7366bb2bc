[package]
name = "terminal_loop"
version = "0.1.0"
edition = "2021"
publish = false

[dependencies]
libc = "=0.2.191"
log = "=0.4.35"
polling = "=3.11.0"
vte = { version = "=0.13.1", default-features = false, features = ["ansi"] }
