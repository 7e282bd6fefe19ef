[package]
name = "loxrs"
version = "0.1.0"
edition = "2021"
publish = false

[dependencies]
arrayvec = "0.7"
backtrace-on-stack-overflow = "0.3"
codespan-reporting = "0.11"
env_logger = "0.11"
log = "0.4"
thiserror = "1"
