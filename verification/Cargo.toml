[package]
name = "whitelist_mutation"
version = "0.1.0"
edition = "2021"
publish = false

[dependencies]
rustc_data_structures = "=0.1.2"
