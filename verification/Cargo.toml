[package]
name = "lyric_fetch"
version = "0.1.0"
edition = "2021"
publish = false

[dependencies]
serde_json = "*"
isahc = "*"
ncm_api = "*"
mpris = "*"
