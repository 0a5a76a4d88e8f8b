[package]
name = "audio_pipeline"
version = "0.1.0"
edition = "2021"
publish = false

[dependencies]
clap = { version = "3", features = ["derive"] }
console_error_panic_hook = "0.1"
cpal = "0.14"
displaydoc = "0.2"
lazy_static = "1"
regex = "1"
symphonia = "0.5"
thiserror = "1"
wasm-bindgen = "0.2"
wav = "1"
web-sys = { version = "0.3", features = ["console"] }
wee_alloc = "0.4"
