[package]
name = "scilla_parser"
version = "0.1.0"
edition = "2021"
publish = false

[dependencies]
lexpr = "0.2"
thiserror = "1.0"
convert_case = "0.6"
