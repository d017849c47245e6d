[package]
name = "omgpp_server"
version = "0.1.0"
edition = "2021"
publish = false

[dependencies]
bimap = "*"
md5 = "*"
uuid = "*"
gns = "*"
