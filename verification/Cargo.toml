[package]
name = "bfc"
version = "0.1.0"
edition = "2021"
publish = false

[dependencies]
cranelift = "=0.134.4"
cranelift-module = "=0.134.4"
cranelift-object = "=0.134.4"
target-lexicon = "*"
structopt = "=0.3.26"
