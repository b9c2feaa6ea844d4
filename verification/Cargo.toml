[package]
name = "event_log_classifier"
version = "0.1.0"
edition = "2021"
publish = false

[dependencies]
clap = { version = "=4.6.7", features = ["derive"] }
roxmltree = "0.20"
serde = { version = "=1.0.229", features = ["derive"] }
thiserror = "=1.0.69"
wasm-bindgen = "=0.2.129"
wasm-bindgen-futures = "=0.4.79"
web-sys = { version = "=0.3.106", features = ["Event", "EventTarget", "File", "FileList", "FileReader", "HtmlInputElement", "InputEvent", "MouseEvent", "ProgressEvent"] }
yew = { version = "=0.21.0", features = ["csr"] }
