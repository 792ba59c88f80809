[package]
name = "scalar_expr"
version = "0.1.0"
edition = "2021"
publish = false

[dependencies]
md-5 = "*"
sha1 = "*"
sha2 = "*"
hmac = "*"
subtle = "*"
