[package]
name = "thunderborg"
version = "0.1.0"
edition = "2021"
publish = false

[dependencies]
arrayvec = "0.4"
i2cdev = "*"
log = "0.3"
env_logger = { version = "0.4", default-features = false }
