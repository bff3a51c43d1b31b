[package]
name = "star_vote"
version = "0.1.0"
edition = "2021"
publish = false

[dependencies]
rustrict = "*"
sha2 = "*"
base64 = "*"
