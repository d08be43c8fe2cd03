[package]
name = "murm"
version = "0.1.0"
edition = "2021"
publish = false

[dependencies]
ed25519-dalek = { version = "2", features = ["rand_core"] }
rand = "0.8"
sha2 = "0.10"
hex = "0.4"
serde = { version = "1", features = ["derive"] }
serde_json = "1"
anyhow = "1"
reqwest = { version = "0.12", default-features = false, features = ["json"] }
gloo-storage = "*"
web-sys = { version = "*", features = ["HtmlInputElement", "HtmlTextAreaElement"] }
yew = { version = "*", features = ["csr"] }
yew-router = "*"
