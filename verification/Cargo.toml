[package]
name = "domius"
version = "0.1.0"
edition = "2021"
publish = false

[dependencies]
clap = { version = "=4.6.7", features = ["derive"] }
serde = { version = "=1.0.229", features = ["derive"] }
wasm-bindgen = "=0.2.130"
js-sys = "=0.3.107"
web-sys = { version = "=0.3.107", features = ["Window", "Document", "Element", "HtmlElement", "HtmlInputElement", "HtmlImageElement", "Node", "NodeList", "Text", "Event", "EventTarget", "MouseEvent", "InputEvent", "KeyboardEvent", "FocusEvent", "SubmitEvent", "DomRect", "DomTokenList", "IntersectionObserver", "IntersectionObserverEntry", "IntersectionObserverInit", "ScrollIntoViewOptions", "ScrollBehavior", "ScrollLogicalPosition"] }
syn = { version = "=2.0.119", features = ["full", "visit-mut"] }
quote = "=1.0.47"
proc-macro2 = "=1.0.107"
