[package]
name = "jj_testkit"
version = "0.1.0"
edition = "2021"
publish = false

[dependencies]
jj-lib = { version = "0.26", default-features = false }
itertools = "0.14"
pollster = "0.4"
rand = "0.8"
async-trait = "0.1"
futures = "0.3"
