[package]
name = "ann_prepare"
version = "0.1.0"
edition = "2021"
publish = false

[dependencies]
arrow = "*"
clap = "*"
