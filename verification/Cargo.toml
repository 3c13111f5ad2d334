[package]
name = "socrata_roulette"
version = "0.1.0"
edition = "2021"
publish = false

[dependencies]
regex = "1"
rand = "0.8"
percent-encoding = "2"
serde = "1"
serde_derive = "1"
serde_json = "1"
serde-enum-str = "0.3"
yew = { version = "0.20", features = ["csr"] }
yew-router = "0.17"
gloo-net = "0.2"
wasm-bindgen-futures = "0.4"
