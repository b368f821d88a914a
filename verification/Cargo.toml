[package]
name = "tile_editor"
version = "0.1.0"
edition = "2021"
publish = false

[dependencies]
easer = "0.3"
serde_json = "=1.0.154"
strum = "0.26"
strum_macros = "0.26"
