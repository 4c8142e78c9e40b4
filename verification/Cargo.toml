[package]
name = "game_of_life"
version = "0.1.0"
edition = "2021"
publish = false

[dependencies]
fixedbitset = "0.4"
wasm-bindgen = "0.2"
web-sys = { version = "0.3", features = ["console"] }
