[package]
name = "rusty_javac"
version = "0.1.0"
edition = "2021"
publish = false

[dependencies]
rust-asm = "*"
rowan = "*"
text-size = "*"
ustr = "*"
logos = "*"
thiserror = "*"
