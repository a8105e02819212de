[package]
name = "respo"
version = "0.1.0"
edition = "2021"
publish = false

[dependencies]
cirru_parser = "*"
hsluv = "*"
js-sys = "*"
lazy_static = "*"
serde = { version = "*", features = ["derive"] }
serde_json = "*"
wasm-bindgen = "*"
web-sys = { version = "*", features = ["BeforeUnloadEvent", "console", "CssStyleDeclaration", "Document", "Element", "Event", "EventTarget", "FocusEvent", "HtmlElement", "HtmlHeadElement", "HtmlInputElement", "HtmlLabelElement", "HtmlTextAreaElement", "InputEvent", "KeyboardEvent", "KeyboardEventInit", "MouseEvent", "Node", "NodeList", "Storage", "Window"] }
