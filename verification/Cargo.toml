[package]
name = "ipa_repack"
version = "0.1.0"
edition = "2021"
publish = false

[dependencies]
jpeg-decoder = { version = "0.3", default-features = false }
js-sys = "0.3"
plist = "1"
png = "0.17"
serde = { version = "1", features = ["derive"] }
serde-wasm-bindgen = "0.6"
wasm-bindgen = "0.2"
zip = { version = "2", default-features = false, features = ["deflate"] }
