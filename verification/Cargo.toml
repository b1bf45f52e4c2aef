[package]
name = "truecrypt"
version = "0.1.0"
edition = "2021"
publish = false

[dependencies]
openssl = "0.10"
clap = { version = "4", features = ["derive"] }
rpassword = "7"
