[package]
name = "pageseer"
version = "0.1.0"
edition = "2021"
publish = false

[dependencies]
clap = { version = "4", features = ["derive"] }
image = { version = "0.25", default-features = false, features = ["png", "jpeg"] }
pdfium-render = "0.9"
reqwest = { version = "0.12", default-features = false, features = ["blocking", "multipart"] }
serde = { version = "1", features = ["derive"] }
serde_json = "1"
