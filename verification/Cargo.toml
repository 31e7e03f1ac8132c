[package]
name = "videocall"
version = "0.1.0"
edition = "2021"
publish = false

[dependencies]
actix = { version = "=0.13.5", default-features = false }
anyhow = "=1.0.104"
axum = { version = "=0.8.9", default-features = false, features = ["tokio"] }
base64 = "=0.22.1"
bytes = "=1.12.1"
chrono = { version = "=0.4.45", default-features = false, features = ["clock", "std", "wasmbind"] }
crossterm = { version = "=0.28.1", features = ["event-stream"] }
dioxus = { version = "=0.6.3", default-features = false, features = ["macro", "html", "signals", "hooks"] }
futures = "=0.3.34"
futures-util = "=0.3.34"
gloo-timers = { version = "=0.3.0", features = ["futures"] }
js-sys = "=0.3.107"
log = "=0.4.35"
ratatui = "=0.29.0"
reqwest = { version = "=0.12.28", default-features = false }
serde = { version = "=1.0.229", features = ["derive"] }
serde_json = "=1.0.154"
tokio = { version = "=1.54.1", features = ["macros", "rt", "sync", "time"] }
tracing = "=0.1.44"
uuid = { version = "=1.29.0", features = ["v4"] }
wasm-bindgen = "=0.2.130"
wasm-bindgen-futures = "=0.4.80"
web-sys = { version = "=0.3.107", features = ["CssStyleDeclaration", "Document", "DomRect", "DomTokenList", "Element", "Event", "EventSource", "EventSourceInit", "EventTarget", "HtmlElement", "HtmlHeadElement", "KeyboardEvent", "Location", "MessageEvent", "Node", "NodeList", "PointerEvent", "MouseEvent", "Storage", "Window"] }
web-transport-quinn = "=0.5.1"
