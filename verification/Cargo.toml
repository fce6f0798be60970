[package]
name = "rs_mod_lua"
version = "0.1.0"
edition = "2021"
publish = false

[dependencies]
fancy-regex = "=0.20.0"
jsonschema = { version = "=0.60.2", default-features = false }
jiff = "=0.2.43"
minijinja = { version = "=3.0.5", features = ["json", "fuel"] }
minijinja-contrib = "=3.0.5"
mlua = { version = "=0.12.2", features = ["lua54", "vendored", "serde", "macros"] }
pest = "=2.9.6"
pest_meta = "=2.9.6"
pest_vm = "=2.9.5"
serde = { version = "=1.0.229", features = ["derive"] }
serde_json = "=1.0.154"
