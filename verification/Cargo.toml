[package]
name = "mavrelay"
version = "0.1.0"
edition = "2021"
publish = false

[dependencies]
mavlink = "=0.10.14"
crossbeam = "=0.8.5"
clap = "=2.33.4"
