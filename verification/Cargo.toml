[package]
name = "aws_mls"
version = "0.1.0"
edition = "2021"
publish = false

[dependencies]
thiserror = "1.0.69"

[dev-dependencies]
hex = "0.4.3"
