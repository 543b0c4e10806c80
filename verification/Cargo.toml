[package]
name = "pico2-quick"
version = "0.1.0"
edition = "2021"
publish = false

[dependencies]
wasmtime = { version = "=46.0.3", default-features = false, features = ["runtime", "component-model", "std"] }
wit-bindgen = "=0.63.0"
defmt = "=1.2.0"
defmt-rtt = "=1.3.1"
panic-probe = { version = "=1.0.0", features = ["print-defmt"] }
embedded-alloc = "=0.5.1"
