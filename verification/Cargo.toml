[package]
name = "eyre_span"
version = "0.1.0"
edition = "2021"
publish = false

[dependencies]
eyre = "0.6"
tracing = "0.1"
tracing-error = "0.2"

[dev-dependencies]
tracing-subscriber = "0.3"
