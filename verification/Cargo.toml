[package]
name = "term_grid"
version = "0.2.0"
edition = "2021"
publish = false

[dependencies]
unicode-width = "0.1"
