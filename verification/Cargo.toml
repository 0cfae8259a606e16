[package]
name = "modecrypt"
version = "0.1.0"
edition = "2021"
publish = false

[dependencies]
aes = "0.6"
block-modes = "0.7"
ctr = "0.6"
sha2 = "0.9"
rand = "0.7"
png = "0.16"
rpassword = "4.0"
structopt = "0.3"
