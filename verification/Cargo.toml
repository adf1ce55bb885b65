[package]
name = "terraffi"
version = "0.1.0"
edition = "2021"
publish = false

[dependencies]
convert_case = "*"
syn = { version = "2", features = ["full", "extra-traits"] }
proc-macro2 = "1"
quote = "1"
cargo_metadata = "*"
