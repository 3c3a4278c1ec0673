[package]
name = "lua_flow"
version = "0.1.0"
edition = "2021"
publish = false

[dependencies]
emmylua_parser = "*"
encoding_rs = "0.8"
hashbrown = "0.15"
log = "0.4"
rowan = "*"
walkdir = "2"
wax = "0.6"
