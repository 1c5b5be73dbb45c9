[package]
name = "query_expr"
version = "0.1.0"
edition = "2021"
publish = false

[dependencies]
smartstring = "1"
pest = "2"
miette = "5"
thiserror = "1"
lazy_static = "1"
itertools = "0.10"
