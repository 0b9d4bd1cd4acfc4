[package]
name = "hush_demo_stark"
version = "0.1.0"
edition = "2021"
publish = false

[dependencies]
serde = { version = "1", features = ["derive"] }
serde_json = "1"
num-traits = "0.2"
stwo = { version = "*", features = ["prover"] }
stwo-constraint-framework = { version = "*", features = ["prover"] }
wasm-bindgen = "0.2"
js-sys = "0.3"
console_error_panic_hook = "0.1"
