[package]
name = "poem_openapi"
version = "0.1.0"
edition = "2021"
publish = false

[dependencies]
jiff = "=0.2.19"
ndarray = "=0.17.2"
serde_json = "=1.0.154"
poem = { version = "=3.1.12", features = ["multipart"] }
