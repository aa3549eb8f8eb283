[package]
name = "csv2xml"
version = "0.1.0"
edition = "2021"
publish = false

[dependencies]
csv = "*"
simple-xml-builder = "*"
clap = { version = "*", features = ["derive"] }

[dev-dependencies]
roxmltree = "*"
