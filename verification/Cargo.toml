[package]
name = "simkernel"
version = "0.1.0"
edition = "2021"
publish = false

[dependencies]
base64 = "0.13"
bincode = "1"
js-sys = "0.3"
serde = { version = "1", features = ["derive"] }
wasm-bindgen = "0.2"
web-sys = { version = "0.3", features = ["CanvasRenderingContext2d", "Document", "Element", "HtmlCanvasElement", "Window", "console"] }
