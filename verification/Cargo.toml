[package]
name = "tracers_codegen"
version = "0.1.0"
edition = "2021"
publish = false

[dependencies]
heck = "*"
syn = { version = "*", features = ["full", "visit"] }
proc-macro2 = "*"
quote = "*"
serde = { version = "*", features = ["derive"] }
serde_json = "*"
