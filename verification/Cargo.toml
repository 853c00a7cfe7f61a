[package]
name = "ldap_codec"
version = "0.1.0"
edition = "2021"
publish = false

[dependencies]
rasn = "*"
rasn-ldap = "*"
bytes = "*"
mlua = { version = "*", features = ["lua54", "vendored"] }
