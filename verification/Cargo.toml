[package]
name = "worker_agent"
version = "0.1.0"
edition = "2021"
publish = false

[dependencies]
serde = { version = "1", features = ["derive"] }
bincode = "1"
wasm-bindgen = "0.2"
js-sys = "0.3"
web-sys = { version = "0.3", features = ["Worker", "WorkerOptions", "Blob", "BlobPropertyBag", "Url", "MessageEvent", "DedicatedWorkerGlobalScope", "Window", "Document", "Location"] }
