[package]
name = "sqlite-wasm"
version = "0.1.3"
edition = "2021"
publish = false

[dependencies]
uuid = { version = "=1.29.0", features = ["v4", "js"] }
wasm-bindgen = "=0.2.130"
wasm-bindgen-futures = "=0.4.80"
js-sys = "=0.3.107"
web-sys = { version = "=0.3.107", features = ["Worker", "WorkerOptions", "WorkerType", "MessageEvent", "Event", "EventTarget", "Window", "Navigator", "Blob", "BlobPropertyBag", "Url", "Performance", "console"] }
futures = "=0.3.34"
futures-channel = "=0.3.34"
lazy_static = "=1.5.1"
