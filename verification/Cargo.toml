[package]
name = "sub_finder"
version = "0.1.0"
edition = "2021"
publish = false

[dependencies]
zip = { version = "=0.6.6", default-features = false, features = ["deflate"] }
xmlrpc = { version = "=0.15.1", default-features = false }
hyper = "=0.10.16"
glob = "=0.3.4"
crossbeam = "=0.2.12"
config = "=0.1.3"
