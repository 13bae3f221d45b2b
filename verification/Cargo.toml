[package]
name = "diesel_factories"
version = "0.1.0"
edition = "2021"
publish = false

[dependencies]
regex = "=1.13.1"
diesel = "=2.3.13"
syn = "=2.0.119"
proc-macro2 = "=1.0.107"
quote = "=1.0.47"
