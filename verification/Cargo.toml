[package]
name = "appgen"
version = "0.1.0"
edition = "2021"
publish = false

[dependencies]
clap = "=2.34.0"
rson_rs = "=0.2.1"
serde = "=1.0.229"
serde_derive = "=1.0.229"
toml = "=0.4.10"
