[package]
name = "guildmaster_server"
version = "0.1.0"
edition = "2021"
publish = false

[dependencies]
include_dir = "0.7"
log = "0.4"
spacetimedb = "1"
