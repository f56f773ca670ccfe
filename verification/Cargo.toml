[package]
name = "autocomplete"
version = "0.1.0"
edition = "2021"
publish = false

[dependencies]
celes = "=2.8.2"
tst = "=0.12.1"
seed = "=0.10.0"
web-sys = { version = "=0.3.106", features = ["CssStyleDeclaration", "Document", "Element", "HtmlInputElement", "KeyboardEvent", "MouseEvent", "Window"] }
