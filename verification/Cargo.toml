[package]
name = "mdbook_typst"
version = "0.1.0"
edition = "2021"
publish = false

[dependencies]
regex = "=1.13.1"
cssparser = "=0.38.0"
pullup = { version = "=0.4.3", features = ["builder", "markdown", "mdbook", "typst"] }
mdbook = "=0.4.52"
serde = { version = "1", features = ["derive"] }
serde_json = "1"
tracing-subscriber = "0.3"
