[package]
name = "spectrum_card"
version = "0.1.0"
edition = "2021"
publish = false

[dependencies]
serde = { version = "=1.0.229", features = ["derive"] }
eframe = { version = "=0.37.0", default-features = false, features = ["glow", "x11", "default_fonts", "persistence"] }
egui = { version = "=0.37.0", default-features = false }
printpdf = "=0.12.8"
web-sys = { version = "=0.3.107", features = ["Blob", "BlobPropertyBag", "HtmlAnchorElement", "Url", "Window", "Document", "Element"] }
js-sys = "=0.3.107"
wasm-bindgen-futures = "=0.4.80"
genpdf = "=0.2.0"
