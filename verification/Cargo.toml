[package]
name = "actor_system"
version = "0.1.0"
edition = "2021"
publish = false

[dependencies]
toml = "0.5"
futures = "0.3"
log = "0.4"
async-trait = "0.1"
