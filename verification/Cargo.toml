[package]
name = "wasm_bench"
version = "0.1.0"
edition = "2021"
publish = false

[dependencies]
anyhow = "=1.0.104"
http-body-util = "=0.1.5"
hyper = { version = "=1.12.0", features = ["server", "http1"] }
hyper-util = { version = "=0.1.21", features = ["tokio"] }
tokio = { version = "=1.54.1", features = ["rt-multi-thread", "macros", "net"] }
wasmtime = "=46.0.3"
wasmtime-wasi = "=46.0.3"
