[package]
name = "modmul_bench"
version = "0.1.0"
edition = "2021"
publish = false

[dependencies]
num-bigint = "0.4"
ibig = "0.3"
crypto-bigint = "0.5"
