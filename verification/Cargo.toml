[package]
name = "typst_facade"
version = "0.1.0"
edition = "2021"
publish = false

[dependencies]
typst = "=0.15.1"
typst-layout = "=0.15.1"
typst-svg = "=0.15.1"
typst-ide = "=0.15.1"
tylax = "=0.3.8"

[dev-dependencies]
typst-assets = { version = "=0.15.1", features = ["fonts"] }
