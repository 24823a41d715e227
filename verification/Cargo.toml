[package]
name = "circom_bridge"
version = "0.1.0"
edition = "2021"
publish = false

[dependencies]
circom-prover = "=0.1.4"
num-bigint = "=0.4.8"
rust-witness = "=0.1.6"
