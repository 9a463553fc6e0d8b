[package]
name = "dioxus_makepad"
version = "0.1.0"
edition = "2021"
publish = false

[dependencies]
dioxus = "=0.4.3"
makepad-live-id = "=0.4.0"
makepad-widgets = "=0.6.0"
serde_json = "=1.0.154"
