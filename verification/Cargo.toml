[package]
name = "spirits-within"
version = "0.1.0"
edition = "2021"
publish = false

[dependencies]
console_error_panic_hook = "=0.1.7"
crossbeam-channel = "=0.5.17"
iced_glutin = "=0.3.0"
iced_solstice = "=0.2.0"
iced_winit = "=0.4.0"
log = "=0.4.34"
rand = { version = "=0.8.8", features = ["small_rng"] }
solstice = "=0.1.22"
solstice-2d = "=0.2.21"
wasm-bindgen = "=0.2.129"
wasm-logger = "=0.2.0"
web-sys = { version = "=0.3.106", features = ["Crypto", "HtmlCanvasElement", "MouseEvent", "WebGlRenderingContext", "WheelEvent", "Window"] }
