[package]
name = "numbat"
version = "0.1.0"
edition = "2021"
publish = false

[dependencies]
itertools = "0.11"
thiserror = "1"
codespan-reporting = "0.11"
