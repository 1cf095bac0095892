[package]
name = "flowy-document-infra"
version = "0.1.0"
edition = "2021"
publish = false

[dependencies]
tracing = "0.1"
