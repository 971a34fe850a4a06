[package]
name = "spaceflight"
version = "0.1.0"
edition = "2021"
publish = false

[dependencies]
image = { version = "0.25", default-features = false, features = ["png"] }
winit = { version = "0.30" }
softbuffer = { version = "0.4" }
wasm-bindgen = { version = "0.2" }
js-sys = { version = "0.3" }
web-sys = { version = "0.3", features = ["CanvasRenderingContext2d", "Document", "Element", "HtmlCanvasElement", "ImageData", "Window", "console"] }
console_error_panic_hook = { version = "0.1" }
