[package]
name = "pathtracer"
version = "0.1.0"
edition = "2021"
publish = false

[dependencies]
itertools = "0.14"
wasm-bindgen = "0.2"
console_error_panic_hook = "0.1"
web-sys = { version = "0.3", features = ["ImageData", "Window", "Document", "Element", "HtmlCanvasElement", "CanvasRenderingContext2d"] }
