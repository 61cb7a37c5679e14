[package]
name = "toroidal_life"
version = "0.1.0"
edition = "2021"
publish = false

[dependencies]
fixedbitset = "0.4"
js-sys = "*"
wasm-bindgen = "*"
web-sys = { version = "*", default-features = false, features = ["console"] }
wee_alloc = "*"
