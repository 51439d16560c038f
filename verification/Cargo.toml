[package]
name = "partiql_winnow_parser"
version = "0.1.0"
edition = "2021"
publish = false

[dependencies]
chrono = "*"
partiql-ast = "*"
partiql-catalog = "*"
partiql-common = "*"
partiql-logical = "*"
partiql-value = "*"
rust_decimal = "*"
smallvec = "*"
time = "*"
winnow = "*"
