[package]
name = "deucalion"
version = "0.1.0"
edition = "2021"
publish = false

[dependencies]
prometheus = "0.13"
time = "0.1"
hyper = "0.10"
ctrlc = "3"
dotenv = "0.8"
env_logger = "0.4"
serde = "1"
serde_derive = "1"
serde_yaml = "0.7"
