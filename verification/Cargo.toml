[package]
name = "spring_password_encoder"
version = "0.1.0"
edition = "2021"
publish = false

[dependencies]
bcrypt = "*"
hex = "0.4"
md4 = "0.10"
md-5 = "0.10"
