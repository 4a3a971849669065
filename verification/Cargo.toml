[package]
name = "rmfeeder"
version = "0.1.0"
edition = "2021"
publish = false

[dependencies]
chrono = "*"
dom_smoothie = "*"
feed-rs = "*"
kuchiki = "*"
pulldown-cmark = "*"
reqwest = { version = "*", features = ["blocking"] }
roxmltree = "*"
rusqlite = { version = "*", features = ["bundled"] }
serde = { version = "*", features = ["derive"] }
serde_json = "*"
url = "*"
