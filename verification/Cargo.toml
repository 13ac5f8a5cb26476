[package]
name = "named_queue"
version = "0.1.0"
edition = "2021"
publish = false

[dependencies]
flume = "=0.11.1"
