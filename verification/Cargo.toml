[package]
name = "invoice_tool"
version = "0.1.0"
edition = "2021"
publish = false

[dependencies]
regex = "=1.13.1"
unicode-normalization = "=0.1.26"
encoding_rs = "=0.8.44"
serde = { version = "=1.0.229", features = ["derive"] }
serde_json = "=1.0.154"
lopdf = "=0.31.0"
printpdf = { version = "=0.7.0", features = ["embedded_images"] }
image = "=0.24.9"
