[package]
name = "bls"
version = "0.1.0"
edition = "2021"
publish = false

[dependencies]
clap = "4"
termcolor = "1"
users = "0.11"
walkdir = "2"
