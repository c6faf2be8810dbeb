[package]
name = "bibfetch"
version = "0.1.0"
edition = "2021"
publish = false

[dependencies]
anyhow = "1"
lexopt = "0.3"
mlua = { version = "0.10", features = ["lua54", "vendored", "serialize", "anyhow", "send"] }
parking_lot = "0.12"
rayon = "1"
serde_json = "1"
ureq = "3"
wasmtime = { version = "36", default-features = false, features = ["runtime", "cranelift", "component-model", "std", "wat"] }
