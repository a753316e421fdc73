[package]
name = "tile_platformer"
version = "0.1.0"
edition = "2021"
publish = false

[dependencies]
anyhow = "1"
console_error_panic_hook = "0.1"
console_log = "0.2"
cpal = "0.13"
env_logger = "0.8"
euclid = "0.22"
glow = "0.6"
glutin = "0.26"
image = { version = "0.23", default-features = false, features = ["png"] }
lewton = "0.10"
log = "0.4"
palette = "0.5"
thiserror = "1"
wasm-bindgen = "0.2"
wasm-bindgen-futures = "0.4"
web-sys = { version = "0.3", features = ["AudioProcessingEvent", "Document", "Element", "EventTarget", "HtmlCanvasElement", "HtmlElement", "KeyboardEvent", "MouseEvent", "Node", "WebGlRenderingContext", "WheelEvent", "Window"] }
zerocopy = "0.3"
