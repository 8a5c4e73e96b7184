[package]
name = "chipo"
version = "0.1.0"
edition = "2021"
publish = false

[dependencies]
rand = "0.7"
sdl2 = "0.34"
structopt = "0.3"
colorful = "0.2"
wasm-bindgen = "0.2"
