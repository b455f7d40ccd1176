[package]
name = "repr_similarity"
version = "0.1.0"
edition = "2021"
publish = false

[dependencies]
half = "*"
ndarray = "*"
wasm-bindgen = "*"
wasm-bindgen-futures = "*"
js-sys = "*"
web-sys = { version = "*", features = ["Request", "RequestInit", "RequestMode", "Response", "WorkerGlobalScope", "console"] }
console_error_panic_hook = "*"
