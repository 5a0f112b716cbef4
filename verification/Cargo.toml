[package]
name = "user_seeder"
version = "0.1.0"
edition = "2021"
publish = false

[dependencies]
bcrypt = "*"
postgres = "0.19"
yaml-rust = "0.4"
