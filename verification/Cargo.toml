[package]
name = "quadratic_core"
version = "0.1.0"
edition = "2021"
publish = false

[dependencies]
anyhow = "*"
bigdecimal = "*"
csv = "*"
itertools = "*"
lexicon_fractional_index = "*"
serde = { version = "*", features = ["derive"] }
serde_json = "*"
serde-wasm-bindgen = "*"
strum = "*"
strum_macros = "*"
wasm-bindgen = "*"
