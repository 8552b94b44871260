[package]
name = "dioxus-field"
version = "0.1.0"
edition = "2021"
publish = false

[dependencies]
dioxus = { version = "=0.7.10", default-features = false, features = ["macro", "html", "hooks", "signals"] }
dioxus-core = "=0.7.10"
dioxus-hooks = "=0.7.10"
dioxus-signals = "=0.7.10"
tracing = "=0.1.44"
