[package]
name = "concoct"
version = "0.1.0"
edition = "2021"
publish = false

[dependencies]
accesskit = "=0.10.1"
futures = "=0.3.34"
slotmap = "=1.1.1"
taffy = "=0.3.19"
syn = { version = "2", features = ["full"] }
quote = "1"
prettyplease = "0.2"
